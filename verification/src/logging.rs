//! Where log records go, from which level on, and how they are written.

use vstd::prelude::*;

verus! {

/// The levels that a sink can be limited to.
#[derive(Clone, Copy, Debug, PartialEq, Eq, Structural)]
pub enum LogLevel {
    Off,
    Error,
    Warn,
    Info,
    Debug,
    Trace,
}

/// Where log records go.
#[derive(Clone, Copy, Debug, PartialEq, Eq, Structural)]
pub enum LogSink {
    /// Standard output, in lines made by [`console_line`].
    Console,
    /// The log server, in lines made by [`log_server_line`].
    LogServer,
    /// A file, in lines made by [`file_line`].
    File,
}

/// Which records a sink takes: those from a level on, with other levels for some targets.
#[derive(Debug, PartialEq, Eq)]
pub struct SinkPlan {
    pub sink: LogSink,
    pub level: LogLevel,
    pub overrides: Vec<(&'static str, LogLevel)>,
}

/// The mathematical content of a [`SinkPlan`].
#[verifier::ext_equal]
pub struct Sink {
    pub sink: LogSink,
    pub level: LogLevel,
    pub overrides: Seq<(Seq<char>, LogLevel)>,
}

impl View for SinkPlan {
    type V = Sink;

    open spec fn view(&self) -> Sink {
        Sink {
            sink: self.sink,
            level: self.level,
            overrides: Seq::new(
                self.overrides@.len(),
                |i: int| (self.overrides@[i].0@, self.overrides@[i].1),
            ),
        }
    }
}

/// How much a level lets through: each level what the ones before it do, and more.
pub open spec fn detail(level: LogLevel) -> int {
    match level {
        LogLevel::Off => 0,
        LogLevel::Error => 1,
        LogLevel::Warn => 2,
        LogLevel::Info => 3,
        LogLevel::Debug => 4,
        LogLevel::Trace => 5,
    }
}

/// How many colons stand in a row from a place on.
pub open spec fn colons(text: Seq<char>, from: int) -> nat
    decreases text.len() - from,
{
    if 0 <= from < text.len() && text[from] == ':' {
        colons(text, from + 1) + 1
    } else {
        0
    }
}

/// Whether a target falls under a module: it is the module itself or lies within it, which is
/// written with `::` behind the module. Colons in a row pair up from the last one back, so an odd
/// number of them does not part the module from what follows.
pub open spec fn under(target: Seq<char>, module: Seq<char>) -> bool {
    target == module || (module.is_prefix_of(target) && colons(target, module.len() as int) > 0
        && colons(target, module.len() as int) % 2 == 0)
}

/// The override that a target falls under, if any: the one for the target itself, or else for
/// the nearest module that it lies within.
pub open spec fn nearest(overrides: Seq<(Seq<char>, LogLevel)>, target: Seq<char>) -> Option<int>
    decreases overrides.len(),
{
    if overrides.len() == 0 {
        None
    } else {
        let before = nearest(overrides.drop_last(), target);
        let module = overrides.last().0;
        if under(target, module) && (before matches Some(i) ==> overrides[i].0.len()
            < module.len()) {
            Some(overrides.len() - 1)
        } else {
            before
        }
    }
}

impl Sink {
    /// Whether the sink takes a record of some target and level.
    pub open spec fn takes(self, target: Seq<char>, level: LogLevel) -> bool {
        let limit = match nearest(self.overrides, target) {
            Some(i) => self.overrides[i].1,
            None => self.level,
        };
        detail(level) <= detail(limit)
    }
}

/// The console takes what is worth knowing, and all that the log server's client says.
pub open spec fn console_sink() -> Sink {
    Sink {
        sink: LogSink::Console,
        level: LogLevel::Info,
        overrides: seq![
            ("ureq"@, LogLevel::Off),
            ("fenrir_rs"@, LogLevel::Trace),
            ("tracing::span"@, LogLevel::Off),
        ],
    }
}

/// The log server takes everything.
pub open spec fn log_server_sink() -> Sink {
    Sink { sink: LogSink::LogServer, level: LogLevel::Trace, overrides: Seq::empty() }
}

/// The file takes most things, but only warnings of what the network libraries say.
pub open spec fn file_sink() -> Sink {
    Sink {
        sink: LogSink::File,
        level: LogLevel::Debug,
        overrides: seq![
            ("tracing::span"@, LogLevel::Off),
            ("ureq"@, LogLevel::Warn),
            ("hyper"@, LogLevel::Warn),
            ("h2"@, LogLevel::Warn),
            ("rustls"@, LogLevel::Warn),
        ],
    }
}

/// The sinks of the process: a service manager keeps the console's output, so a file is only
/// written without one.
pub fn log_plan(under_system_manager: bool) -> (sinks: Vec<SinkPlan>)
    ensures
        sinks@.len() == if under_system_manager {
            2nat
        } else {
            3nat
        },
        sinks@[0]@ == console_sink(),
        sinks@[1]@ == log_server_sink(),
        !under_system_manager ==> sinks@[2]@ == file_sink(),
{
    let mut console: Vec<(&'static str, LogLevel)> = Vec::new();
    console.push(("ureq", LogLevel::Off));
    console.push(("fenrir_rs", LogLevel::Trace));
    console.push(("tracing::span", LogLevel::Off));
    let mut sinks: Vec<SinkPlan> = Vec::new();
    sinks.push(SinkPlan { sink: LogSink::Console, level: LogLevel::Info, overrides: console });
    assert(sinks@[0]@ =~= console_sink());
    sinks.push(
        SinkPlan { sink: LogSink::LogServer, level: LogLevel::Trace, overrides: Vec::new() },
    );
    assert(sinks@[1]@ =~= log_server_sink());
    if !under_system_manager {
        let mut file: Vec<(&'static str, LogLevel)> = Vec::new();
        file.push(("tracing::span", LogLevel::Off));
        file.push(("ureq", LogLevel::Warn));
        file.push(("hyper", LogLevel::Warn));
        file.push(("h2", LogLevel::Warn));
        file.push(("rustls", LogLevel::Warn));
        sinks.push(SinkPlan { sink: LogSink::File, level: LogLevel::Debug, overrides: file });
        assert(sinks@[2]@ =~= file_sink());
    }
    sinks
}

/// The override that is found is one that the target falls under, and none is found only if the
/// target falls under none.
proof fn lemma_nearest(overrides: Seq<(Seq<char>, LogLevel)>, target: Seq<char>)
    ensures
        match nearest(overrides, target) {
            Some(i) => 0 <= i < overrides.len() && under(target, overrides[i].0),
            None => forall|j: int|
                0 <= j < overrides.len() ==> !under(target, (#[trigger] overrides[j]).0),
        },
    decreases overrides.len(),
{
    if overrides.len() > 0 {
        let before = overrides.drop_last();
        lemma_nearest(before, target);
        if nearest(overrides, target) is None {
            assert forall|j: int| 0 <= j < overrides.len() implies !under(
                target,
                (#[trigger] overrides[j]).0,
            ) by {
                if j < before.len() {
                    assert(before[j] == overrides[j]);
                }
            }
        }
    }
}

/// A target does not fall under two modules that differ in one of their first letters.
proof fn lemma_under_one(target: Seq<char>, one: Seq<char>, other: Seq<char>, at: int)
    requires
        0 <= at < one.len(),
        at < other.len(),
        one[at] != other[at],
        under(target, one),
    ensures
        !under(target, other),
{
    assert(target[at] == one[at]);
}

/// The console takes a record exactly if its target falls under `fenrir_rs`, or if it falls under
/// neither `ureq` nor `tracing::span` and is an error, a warning or information.
pub proof fn law_what_the_console_takes(target: Seq<char>, level: LogLevel)
    requires
        level != LogLevel::Off,
    ensures
        console_sink().takes(target, level) <==> {
            ||| under(target, "fenrir_rs"@)
            ||| !under(target, "ureq"@) && !under(target, "tracing::span"@) && (level is Error
                || level is Warn || level is Info)
        },
{
    reveal_strlit("ureq");
    reveal_strlit("fenrir_rs");
    reveal_strlit("tracing::span");
    let overrides = console_sink().overrides;
    lemma_nearest(overrides, target);
    assert(overrides[0].0 == "ureq"@ && overrides[1].0 == "fenrir_rs"@ && overrides[2].0
        == "tracing::span"@);
    assert forall|i: int, j: int|
        0 <= i < 3 && 0 <= j < 3 && i != j && under(target, overrides[i].0) implies !under(
        target,
        overrides[j].0,
    ) by {
        lemma_under_one(target, overrides[i].0, overrides[j].0, 0);
    }
}

/// The log server takes every record, whatever its target and level.
pub proof fn law_the_log_server_takes_everything(target: Seq<char>, level: LogLevel)
    ensures
        log_server_sink().takes(target, level),
{
}

/// The file takes a record exactly if its target does not fall under `tracing::span` and it is at
/// least of level debug; of the network libraries it takes only errors and warnings.
pub proof fn law_what_the_file_takes(target: Seq<char>, level: LogLevel)
    requires
        level != LogLevel::Off,
    ensures
        file_sink().takes(target, level) <==> !under(target, "tracing::span"@) && if under(
            target,
            "ureq"@,
        ) || under(target, "hyper"@) || under(target, "h2"@) || under(target, "rustls"@) {
            level is Error || level is Warn
        } else {
            !(level is Trace)
        },
{
    reveal_strlit("tracing::span");
    reveal_strlit("ureq");
    reveal_strlit("hyper");
    reveal_strlit("h2");
    reveal_strlit("rustls");
    let overrides = file_sink().overrides;
    lemma_nearest(overrides, target);
    assert(overrides[0].0 == "tracing::span"@ && overrides[1].0 == "ureq"@ && overrides[2].0
        == "hyper"@ && overrides[3].0 == "h2"@ && overrides[4].0 == "rustls"@);
    if under(target, overrides[0].0) {
        lemma_under_one(target, overrides[0].0, overrides[1].0, 0);
        lemma_under_one(target, overrides[0].0, overrides[2].0, 0);
        lemma_under_one(target, overrides[0].0, overrides[3].0, 0);
        lemma_under_one(target, overrides[0].0, overrides[4].0, 0);
    }
}

/// A record as the log server gets it: the bare message.
pub fn log_server_line(message: &str) -> (line: String)
    ensures
        line@ == message@,
{
    message.to_owned()
}

/// A record as the console shows it. `color` is the number of the line's color; `level` comes
/// with colors of its own, so the line's color is set again behind the target.
pub fn console_line(color: &str, date: &str, level: &str, target: &str, message: &str) -> (line:
    String)
    ensures
        line@ == "\x1B["@ + color@ + "m["@ + date@ + " "@ + level@ + " "@ + target@ + " \x1B["@
            + color@ + "m] "@ + message@ + "\x1B[0m"@,
{
    let mut line: String = String::new();
    line.append("\x1B[");
    line.append(color);
    line.append("m[");
    line.append(date);
    line.append(" ");
    line.append(level);
    line.append(" ");
    line.append(target);
    line.append(" \x1B[");
    line.append(color);
    line.append("m] ");
    line.append(message);
    line.append("\x1B[0m");
    line
}

/// A record as the file shows it.
pub fn file_line(date: &str, level: &str, target: &str, message: &str) -> (line: String)
    ensures
        line@ == "["@ + date@ + " "@ + level@ + " "@ + target@ + "] "@ + message@,
{
    let mut line: String = String::new();
    line.append("[");
    line.append(date);
    line.append(" ");
    line.append(level);
    line.append(" ");
    line.append(target);
    line.append("] ");
    line.append(message);
    line
}

/// The colors of the console.
#[derive(Clone, Copy, Debug, PartialEq, Eq, Structural)]
pub enum LogColor {
    Red,
    Yellow,
    White,
    Green,
    BrightBlack,
}

/// The color of a record's line: red and yellow for what went wrong or might, the color of faint
/// text for traces, and plain white otherwise. Nothing is recorded at the level that is off.
pub fn line_color(level: LogLevel) -> (color: LogColor)
    requires
        level != LogLevel::Off,
    ensures
        color == match level {
            LogLevel::Error => LogColor::Red,
            LogLevel::Warn => LogColor::Yellow,
            LogLevel::Trace => LogColor::BrightBlack,
            _ => LogColor::White,
        },
{
    match level {
        LogLevel::Error => LogColor::Red,
        LogLevel::Warn => LogColor::Yellow,
        LogLevel::Trace => LogColor::BrightBlack,
        _ => LogColor::White,
    }
}

/// The color of a record's level: green for information, else the color of the line.
pub fn level_color(level: LogLevel) -> (color: LogColor)
    requires
        level != LogLevel::Off,
    ensures
        color == match level {
            LogLevel::Error => LogColor::Red,
            LogLevel::Warn => LogColor::Yellow,
            LogLevel::Info => LogColor::Green,
            LogLevel::Trace => LogColor::BrightBlack,
            _ => LogColor::White,
        },
{
    match level {
        LogLevel::Info => LogColor::Green,
        level => line_color(level),
    }
}

/// What is wrong with the address of the log server.
#[derive(Clone, Copy, Debug, PartialEq, Eq, Structural)]
pub enum LogServerError {
    NotSet,
    InvalidUrl,
}

/// The URL that a text is parsed to, written out in full, if it is an absolute URL.
pub uninterp spec fn parsed_url(text: Seq<char>) -> Option<Seq<char>>;

/// `url::Url::parse`: the URL that a text spells, written out in full, or nothing if the text is
/// not an absolute URL. What the parser makes of a text is not stated.
#[verifier::external_body]
fn parse_url(text: &str) -> (url: Option<String>)
    ensures
        match url {
            Some(written) => parsed_url(text@) == Some(written@),
            None => parsed_url(text@) is None,
        },
{
    url::Url::parse(text).ok().map(|parsed| String::from(parsed))
}

/// The address of the log server, once its text is parsed.
pub fn log_server(parsed: Option<String>) -> (result: Result<String, LogServerError>)
    ensures
        result == match parsed {
            Some(url) => Ok::<String, LogServerError>(url),
            None => Err(LogServerError::InvalidUrl),
        },
{
    match parsed {
        Some(url) => Ok(url),
        None => Err(LogServerError::InvalidUrl),
    }
}

/// The address of the log server, from the variable that holds it.
pub fn log_server_url(target: Option<String>) -> (result: Result<String, LogServerError>)
    ensures
        match target {
            None => result == Err::<String, _>(LogServerError::NotSet),
            Some(text) => match parsed_url(text@) {
                None => result == Err::<String, _>(LogServerError::InvalidUrl),
                Some(url) => result matches Ok(written) && written@ == url,
            },
        },
{
    match target {
        None => Err(LogServerError::NotSet),
        Some(text) => log_server(parse_url(text.as_str())),
    }
}

/// A module and what lies behind `::` in it fall under the module; what only begins with the same
/// letters, or has a single colon behind them, does not, and neither does anything that begins
/// otherwise.
pub proof fn law_what_falls_under_a_module(target: Seq<char>, module: Seq<char>, rest: Seq<char>)
    ensures
        under(module, module),
        rest.len() > 0 && rest[0] != ':' ==> under(module + seq![':', ':'] + rest, module),
        rest.len() > 0 && rest[0] != ':' ==> !under(module + rest, module),
        rest.len() > 0 && rest[0] != ':' ==> !under(module + seq![':'] + rest, module),
        under(target, module) ==> module.is_prefix_of(target),
{
    let at = module.len() as int;
    if rest.len() > 0 && rest[0] != ':' {
        let within = module + seq![':', ':'] + rest;
        let beside = module + rest;
        let odd = module + seq![':'] + rest;
        assert(colons(within, at + 2) == 0);
        assert(colons(within, at + 1) == 1);
        assert(colons(within, at) == 2);
        assert(module.is_prefix_of(within));
        assert(colons(beside, at) == 0);
        assert(colons(odd, at + 1) == 0);
        assert(colons(odd, at) == 1);
        assert(beside.len() != module.len() && odd.len() != module.len());
    }
    if target == module {
        assert(module.is_prefix_of(target));
    }
}

/// Each plan says where its records go, and its mathematical content is the plan: the sink, the
/// level, and every override with its target and level, in order.
pub proof fn law_nothing_of_a_plan_is_lost(plan: SinkPlan, i: int)
    ensures
        plan@.sink == plan.sink,
        plan@.level == plan.level,
        plan@.overrides.len() == plan.overrides@.len(),
        0 <= i < plan.overrides@.len() ==> plan@.overrides[i].0 == plan.overrides@[i].0@
            && plan@.overrides[i].1 == plan.overrides@[i].1,
        console_sink().sink is Console,
        log_server_sink().sink is LogServer,
        file_sink().sink is File,
        console_sink().level is Info,
        log_server_sink().level is Trace,
        file_sink().level is Debug,
{
}

/// Each level lets through what the one before it does, and its own records.
pub proof fn law_levels_let_through_more_and_more()
    ensures
        detail(LogLevel::Off) < detail(LogLevel::Error) < detail(LogLevel::Warn) < detail(
            LogLevel::Info,
        ) < detail(LogLevel::Debug) < detail(LogLevel::Trace),
{
}

} // verus!
