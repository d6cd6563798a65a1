//! A transcription: running the model on a stream, and making text of the segments it finds.
//!
//! [`TranscriptionTask`] decides; its driver runs the model. The driver hands in what came of an
//! action as the next event, until the action is to finish or to give up.

use vstd::prelude::*;

use crate::text::push_decimal;

verus! {

/// What the model says of one segment: its text, and when it starts and ends. Each of them can
/// fail on its own.
#[derive(Debug)]
pub struct SegmentReply<E> {
    pub text: Result<String, E>,
    pub start: Result<i64, E>,
    pub end: Result<i64, E>,
}

/// A segment's line in a transcription without times.
pub open spec fn plain_line(text: Seq<char>) -> Seq<char> {
    text + "\n"@
}

/// A segment's line in a verbose transcription: its text behind its times.
pub open spec fn timed_line(text: Seq<char>, start: int, end: int) -> Seq<char> {
    "["@ + crate::text::decimal(start) + " - "@ + crate::text::decimal(end) + "]: "@ + text + "\n"@
}

/// The line of a segment, or the first error among its text, its start and its end. The times
/// only count in verbose transcriptions.
pub open spec fn segment_line<E>(segment: SegmentReply<E>, verbose: bool) -> Result<Seq<char>, E> {
    match segment.text {
        Err(e) => Err(e),
        Ok(text) => if !verbose {
            Ok(plain_line(text@))
        } else {
            match (segment.start, segment.end) {
                (Err(e), _) => Err(e),
                (Ok(start), Err(e)) => Err(e),
                (Ok(start), Ok(end)) => Ok(timed_line(text@, start as int, end as int)),
            }
        },
    }
}

/// The lines of several segments, one after the other; or the first error among them.
pub open spec fn segment_lines<E>(segments: Seq<SegmentReply<E>>, verbose: bool) -> Result<
    Seq<char>,
    E,
>
    decreases segments.len(),
{
    if segments.len() == 0 {
        Ok(Seq::empty())
    } else {
        match segment_lines(segments.drop_last(), verbose) {
            Err(e) => Err(e),
            Ok(lines) => match segment_line(segments.last(), verbose) {
                Err(e) => Err(e),
                Ok(line) => Ok(lines + line),
            },
        }
    }
}

/// Where a transcription stands.
#[derive(Debug)]
pub enum TaskStage<E> {
    /// Nothing has happened yet.
    New,
    /// Waiting until fewer transcriptions run than may run at once.
    Waiting,
    /// A state of the model is being created.
    Creating,
    /// The model runs.
    Running,
    /// The model has run, and its place is being given free.
    Releasing { run: Result<(), E> },
    /// The segments are being counted.
    Counting,
    /// The text of segment `i` of `n` is being read.
    ReadingText { i: i32, n: i32 },
    /// When segment `i` of `n` starts is being read.
    ReadingStart { i: i32, n: i32, text: String },
    /// When segment `i` of `n` ends is being read.
    ReadingEnd { i: i32, n: i32, text: String, start: i64 },
    /// The transcription is over.
    Over,
}

/// What happened to a transcription.
#[derive(Debug)]
pub enum TaskEvent<E> {
    /// It was asked for.
    Requested,
    /// It may run.
    Permitted,
    /// A state of the model was created, or could not be.
    Created(bool),
    /// The model has run.
    Ran(Result<(), E>),
    /// Its place was given free.
    Released,
    /// The segments were counted.
    Counted(Result<i32, E>),
    /// A text was read.
    Text(Result<String, E>),
    /// A time was read.
    Time(Result<i64, E>),
}

/// What to do next for a transcription.
#[derive(Debug, PartialEq, Eq)]
pub enum TaskAction<E> {
    /// Wait until fewer transcriptions run than may run at once.
    AcquirePermit,
    /// Create a state of the model.
    CreateState,
    /// Run the model.
    Run,
    /// Give the place free.
    ReleasePermit,
    /// Count the segments.
    CountSegments,
    /// Read the text of a segment.
    ReadText(i32),
    /// Read when a segment starts.
    ReadStart(i32),
    /// Read when a segment ends.
    ReadEnd(i32),
    /// End with a text or an error.
    Finish(Result<String, E>),
    /// Give up: there is no model.
    GiveUp,
}

/// The mathematical content of a [`TaskStage`].
#[verifier::ext_equal]
pub enum Stage<E> {
    New,
    Waiting,
    Creating,
    Running,
    Releasing { run: Result<(), E> },
    Counting,
    ReadingText { i: int, n: int },
    ReadingStart { i: int, n: int, text: Seq<char> },
    ReadingEnd { i: int, n: int, text: Seq<char>, start: int },
    Over,
}

impl<E> View for TaskStage<E> {
    type V = Stage<E>;

    open spec fn view(&self) -> Stage<E> {
        match self {
            TaskStage::New => Stage::New,
            TaskStage::Waiting => Stage::Waiting,
            TaskStage::Creating => Stage::Creating,
            TaskStage::Running => Stage::Running,
            TaskStage::Releasing { run } => Stage::Releasing { run: *run },
            TaskStage::Counting => Stage::Counting,
            TaskStage::ReadingText { i, n } => Stage::ReadingText { i: *i as int, n: *n as int },
            TaskStage::ReadingStart { i, n, text } => Stage::ReadingStart {
                i: *i as int,
                n: *n as int,
                text: text@,
            },
            TaskStage::ReadingEnd { i, n, text, start } => Stage::ReadingEnd {
                i: *i as int,
                n: *n as int,
                text: text@,
                start: *start as int,
            },
            TaskStage::Over => Stage::Over,
        }
    }
}

/// The mathematical content of a [`TaskAction`].
#[verifier::ext_equal]
pub enum Todo<E> {
    AcquirePermit,
    CreateState,
    Run,
    ReleasePermit,
    CountSegments,
    ReadText { i: int },
    ReadStart { i: int },
    ReadEnd { i: int },
    Finish { text: Seq<char> },
    Fail { error: E },
    GiveUp,
}

impl<E> View for TaskAction<E> {
    type V = Todo<E>;

    open spec fn view(&self) -> Todo<E> {
        match self {
            TaskAction::AcquirePermit => Todo::AcquirePermit,
            TaskAction::CreateState => Todo::CreateState,
            TaskAction::Run => Todo::Run,
            TaskAction::ReleasePermit => Todo::ReleasePermit,
            TaskAction::CountSegments => Todo::CountSegments,
            TaskAction::ReadText(i) => Todo::ReadText { i: *i as int },
            TaskAction::ReadStart(i) => Todo::ReadStart { i: *i as int },
            TaskAction::ReadEnd(i) => Todo::ReadEnd { i: *i as int },
            TaskAction::Finish(Ok(text)) => Todo::Finish { text: text@ },
            TaskAction::Finish(Err(error)) => Todo::Fail { error: *error },
            TaskAction::GiveUp => Todo::GiveUp,
        }
    }
}

/// The mathematical content of a [`TranscriptionTask`].
#[verifier::ext_equal]
pub struct Task<E> {
    pub verbose: bool,
    pub stage: Stage<E>,
    /// The lines of the segments that have been read.
    pub lines: Seq<char>,
}

impl<E> Task<E> {
    /// What holds of every transcription: the segment that is being read is one of those that
    /// were counted.
    pub open spec fn valid(self) -> bool {
        match self.stage {
            Stage::ReadingText { i, n } => 0 <= i < n <= i32::MAX,
            Stage::ReadingStart { i, n, text } => 0 <= i < n <= i32::MAX,
            Stage::ReadingEnd { i, n, text, start } => 0 <= i < n <= i32::MAX,
            _ => true,
        }
    }

    /// The events that can come about at a stage. A count is never negative.
    pub open spec fn awaits(self, event: TaskEvent<E>) -> bool {
        match event {
            TaskEvent::Requested => self.stage is New,
            TaskEvent::Permitted => self.stage is Waiting,
            TaskEvent::Created(created) => self.stage is Creating,
            TaskEvent::Ran(run) => self.stage is Running,
            TaskEvent::Released => self.stage is Releasing,
            TaskEvent::Counted(count) => self.stage is Counting && (count matches Ok(n) ==> n >= 0),
            TaskEvent::Text(text) => self.stage is ReadingText,
            TaskEvent::Time(time) => self.stage is ReadingStart || self.stage is ReadingEnd,
        }
    }

    /// The transcription at another stage.
    pub open spec fn at(self, stage: Stage<E>) -> Task<E> {
        Task { stage, ..self }
    }

    /// Ending with an error.
    pub open spec fn fail(self, error: E) -> (Task<E>, Todo<E>) {
        (self.at(Stage::Over), Todo::Fail { error })
    }

    /// Going on with segment `i` of `n`, or finishing behind the last one.
    pub open spec fn read_segment(self, i: int, n: int) -> (Task<E>, Todo<E>) {
        if i < n {
            (self.at(Stage::ReadingText { i, n }), Todo::ReadText { i })
        } else {
            (self.at(Stage::Over), Todo::Finish { text: self.lines })
        }
    }

    /// The transcription with one more line.
    pub open spec fn with_line(self, line: Seq<char>) -> Task<E> {
        Task { lines: self.lines + line, ..self }
    }

    /// Where an event leads and what to do then.
    pub open spec fn step(self, event: TaskEvent<E>) -> (Task<E>, Todo<E>) {
        match event {
            TaskEvent::Requested => (self.at(Stage::Waiting), Todo::AcquirePermit),
            TaskEvent::Permitted => (self.at(Stage::Creating), Todo::CreateState),
            TaskEvent::Created(created) => if created {
                (self.at(Stage::Running), Todo::Run)
            } else {
                (self.at(Stage::Over), Todo::GiveUp)
            },
            TaskEvent::Ran(run) => (self.at(Stage::Releasing { run }), Todo::ReleasePermit),
            TaskEvent::Released => match self.stage->run {
                Err(e) => self.fail(e),
                Ok(_) => (self.at(Stage::Counting), Todo::CountSegments),
            },
            TaskEvent::Counted(Err(e)) => self.fail(e),
            TaskEvent::Counted(Ok(n)) => self.read_segment(0, n as int),
            TaskEvent::Text(Err(e)) => self.fail(e),
            TaskEvent::Text(Ok(text)) => {
                let i = self.stage->ReadingText_i;
                let n = self.stage->ReadingText_n;
                if self.verbose {
                    (self.at(Stage::ReadingStart { i, n, text: text@ }), Todo::ReadStart { i })
                } else {
                    self.with_line(plain_line(text@)).read_segment(i + 1, n)
                }
            },
            TaskEvent::Time(Err(e)) => self.fail(e),
            TaskEvent::Time(Ok(time)) => match self.stage {
                Stage::ReadingEnd { i, n, text, start } => self.with_line(
                    timed_line(text, start, time as int),
                ).read_segment(i + 1, n),
                Stage::ReadingStart { i, n, text } => (
                    self.at(Stage::ReadingEnd { i, n, text, start: time as int }),
                    Todo::ReadEnd { i },
                ),
                _ => (self.at(Stage::Over), Todo::GiveUp),
            },
        }
    }
}

/// The state of one transcription.
#[derive(Debug)]
pub struct TranscriptionTask<E> {
    verbose: bool,
    stage: TaskStage<E>,
    lines: String,
}

impl<E> View for TranscriptionTask<E> {
    type V = Task<E>;

    closed spec fn view(&self) -> Task<E> {
        Task { verbose: self.verbose, stage: self.stage@, lines: self.lines@ }
    }
}

impl<E> TranscriptionTask<E> {
    /// A transcription that has not begun.
    pub fn new(verbose: bool) -> (task: TranscriptionTask<E>)
        ensures
            task@ == (Task::<E> { verbose, stage: Stage::New, lines: Seq::empty() }),
            task@.valid(),
    {
        TranscriptionTask { verbose, stage: TaskStage::New, lines: String::new() }
    }

    /// Takes an event and says what to do next.
    pub fn step(self, event: TaskEvent<E>) -> (next: (TranscriptionTask<E>, TaskAction<E>))
        requires
            self@.valid(),
            self@.awaits(event),
        ensures
            next.0@.valid(),
            (next.0@, next.1@) == self@.step(event),
    {
        match event {
            TaskEvent::Requested => (self.at(TaskStage::Waiting), TaskAction::AcquirePermit),
            TaskEvent::Permitted => (self.at(TaskStage::Creating), TaskAction::CreateState),
            TaskEvent::Created(created) => if created {
                (self.at(TaskStage::Running), TaskAction::Run)
            } else {
                (self.at(TaskStage::Over), TaskAction::GiveUp)
            },
            TaskEvent::Ran(run) => (
                self.at(TaskStage::Releasing { run }),
                TaskAction::ReleasePermit,
            ),
            TaskEvent::Released => self.after_run(),
            TaskEvent::Counted(Ok(n)) => self.read_segment(0, n),
            TaskEvent::Counted(Err(e)) => self.fail(e),
            TaskEvent::Text(Ok(text)) => self.after_text(text),
            TaskEvent::Text(Err(e)) => self.fail(e),
            TaskEvent::Time(Ok(time)) => self.after_time(time),
            TaskEvent::Time(Err(e)) => self.fail(e),
        }
    }

    /// The transcription at another stage.
    fn at(self, stage: TaskStage<E>) -> (task: TranscriptionTask<E>)
        ensures
            task@ == self@.at(stage@),
    {
        TranscriptionTask { verbose: self.verbose, stage, lines: self.lines }
    }

    /// Ends with an error.
    fn fail(self, error: E) -> (next: (TranscriptionTask<E>, TaskAction<E>))
        ensures
            (next.0@, next.1@) == self@.fail(error),
    {
        (self.at(TaskStage::Over), TaskAction::Finish(Err(error)))
    }

    /// Goes on with segment `i` of `n`, or finishes behind the last one.
    fn read_segment(self, i: i32, n: i32) -> (next: (TranscriptionTask<E>, TaskAction<E>))
        ensures
            (next.0@, next.1@) == self@.read_segment(i as int, n as int),
    {
        if i < n {
            (self.at(TaskStage::ReadingText { i, n }), TaskAction::ReadText(i))
        } else {
            let text: String = self.lines.clone();
            (self.at(TaskStage::Over), TaskAction::Finish(Ok(text)))
        }
    }

    /// Goes on behind a run of the model, as its result says.
    fn after_run(self) -> (next: (TranscriptionTask<E>, TaskAction<E>))
        requires
            self@.stage is Releasing,
        ensures
            (next.0@, next.1@) == self@.step(TaskEvent::Released),
    {
        let TranscriptionTask { verbose, stage, lines } = self;
        match stage {
            TaskStage::Releasing { run: Err(e) } => (
                TranscriptionTask { verbose, stage: TaskStage::Over, lines },
                TaskAction::Finish(Err(e)),
            ),
            _ => (
                TranscriptionTask { verbose, stage: TaskStage::Counting, lines },
                TaskAction::CountSegments,
            ),
        }
    }

    /// Goes on behind the text of a segment.
    fn after_text(self, text: String) -> (next: (TranscriptionTask<E>, TaskAction<E>))
        requires
            self@.valid(),
            self@.stage is ReadingText,
        ensures
            (next.0@, next.1@) == self@.step(TaskEvent::Text(Ok(text))),
    {
        let (i, n): (i32, i32) = match &self.stage {
            TaskStage::ReadingText { i, n } => (*i, *n),
            _ => (0, 0),
        };
        if self.verbose {
            (self.at(TaskStage::ReadingStart { i, n, text }), TaskAction::ReadStart(i))
        } else {
            let mut task: TranscriptionTask<E> = self;
            task.lines.append(text.as_str());
            task.lines.append("\n");
            assert(task.lines@ =~= self@.lines + plain_line(text@));
            task.read_segment(i + 1, n)
        }
    }

    /// Goes on behind a time of a segment.
    fn after_time(self, time: i64) -> (next: (TranscriptionTask<E>, TaskAction<E>))
        requires
            self@.valid(),
            self@.stage is ReadingStart || self@.stage is ReadingEnd,
        ensures
            (next.0@, next.1@) == self@.step(TaskEvent::Time(Ok(time))),
    {
        let ghost before: Task<E> = self@;
        let TranscriptionTask { verbose, stage, lines } = self;
        let mut lines: String = lines;
        match stage {
            TaskStage::ReadingEnd { i, n, text, start } => {
                lines.append("[");
                push_decimal(&mut lines, start);
                lines.append(" - ");
                push_decimal(&mut lines, time);
                lines.append("]: ");
                lines.append(text.as_str());
                lines.append("\n");
                assert(lines@ =~= before.lines + timed_line(text@, start as int, time as int));
                let task: TranscriptionTask<E> = TranscriptionTask {
                    verbose,
                    stage: TaskStage::Over,
                    lines,
                };
                task.read_segment(i + 1, n)
            },
            TaskStage::ReadingStart { i, n, text } => (
                TranscriptionTask {
                    verbose,
                    stage: TaskStage::ReadingEnd { i, n, text, start: time },
                    lines,
                },
                TaskAction::ReadEnd(i),
            ),
            _ => (
                TranscriptionTask { verbose, stage: TaskStage::Over, lines },
                TaskAction::GiveUp,
            ),
        }
    }
}

/// How the model behaves in one transcription: whether a state of it can be created, what comes
/// of running it, how many segments it counts, and what it says of each of them.
pub struct ModelRun<E> {
    pub created: bool,
    pub run: Result<(), E>,
    pub count: Result<i32, E>,
    pub segments: Seq<SegmentReply<E>>,
}

impl<E> ModelRun<E> {
    /// A count that succeeds counts all segments.
    pub open spec fn valid(self) -> bool {
        self.count matches Ok(n) ==> n == self.segments.len()
    }

    /// What comes of an action.
    pub open spec fn reply(self, action: Todo<E>) -> TaskEvent<E> {
        match action {
            Todo::AcquirePermit => TaskEvent::Permitted,
            Todo::CreateState => TaskEvent::Created(self.created),
            Todo::Run => TaskEvent::Ran(self.run),
            Todo::ReleasePermit => TaskEvent::Released,
            Todo::CountSegments => TaskEvent::Counted(self.count),
            Todo::ReadText { i } => TaskEvent::Text(self.segments[i].text),
            Todo::ReadStart { i } => TaskEvent::Time(self.segments[i].start),
            Todo::ReadEnd { i } => TaskEvent::Time(self.segments[i].end),
            _ => TaskEvent::Requested,
        }
    }

    /// How a transcription ends: the first failure on its way, or the lines of all segments.
    pub open spec fn transcript(self, verbose: bool) -> Todo<E> {
        if !self.created {
            Todo::GiveUp
        } else {
            match (self.run, self.count, segment_lines(self.segments, verbose)) {
                (Err(e), _, _) => Todo::Fail { error: e },
                (_, Err(e), _) => Todo::Fail { error: e },
                (_, _, Err(e)) => Todo::Fail { error: e },
                (_, _, Ok(text)) => Todo::Finish { text },
            }
        }
    }
}

impl<E> Task<E> {
    /// How many kinds of work lie ahead before segments are read.
    pub open spec fn steps_ahead(self) -> nat {
        match self.stage {
            Stage::New => 6,
            Stage::Waiting => 5,
            Stage::Creating => 4,
            Stage::Running => 3,
            Stage::Releasing { run } => 2,
            Stage::Counting => 1,
            _ => 0,
        }
    }

    /// How many segments are yet to be read to the end.
    pub open spec fn segments_ahead(self) -> int {
        match self.stage {
            Stage::ReadingText { i, n } => n - i,
            Stage::ReadingStart { i, n, text } => n - i,
            Stage::ReadingEnd { i, n, text, start } => n - i,
            _ => 0,
        }
    }

    /// How much of the segment at hand is yet to be read.
    pub open spec fn parts_ahead(self) -> nat {
        match self.stage {
            Stage::ReadingText { i, n } => 2,
            Stage::ReadingStart { i, n, text } => 1,
            _ => 0,
        }
    }

    /// The action with which a transcription ends when an event happens to it and the model
    /// behaves like `model` from then on.
    pub open spec fn outcome(self, event: TaskEvent<E>, model: ModelRun<E>) -> Todo<E>
        decreases self.steps_ahead(), self.segments_ahead(), self.parts_ahead(),
        when self.valid() && self.awaits(event)
    {
        let (next, action) = self.step(event);
        if next.stage is Over {
            action
        } else {
            next.outcome(model.reply(action), model)
        }
    }

    /// How often the model is run when an event happens to a transcription and the model behaves
    /// like `model` from then on.
    pub open spec fn runs(self, event: TaskEvent<E>, model: ModelRun<E>) -> nat
        decreases self.steps_ahead(), self.segments_ahead(), self.parts_ahead(),
        when self.valid() && self.awaits(event)
    {
        let (next, action) = self.step(event);
        let later = if next.stage is Over {
            0
        } else {
            next.runs(model.reply(action), model)
        };
        if action is Run {
            later + 1
        } else {
            later
        }
    }

    /// The stages at which a transcription has one of the places of those that run at once.
    pub open spec fn permitted(self) -> bool {
        self.stage is Creating || self.stage is Running || self.stage is Releasing
    }
}

/// Segments behind an error do not change it.
proof fn lemma_error_stays<E>(segments: Seq<SegmentReply<E>>, verbose: bool, k: int, e: E)
    requires
        0 <= k <= segments.len(),
        segment_lines(segments.take(k), verbose) == Err::<Seq<char>, E>(e),
    ensures
        segment_lines(segments, verbose) == Err::<Seq<char>, E>(e),
    decreases segments.len(),
{
    if k == segments.len() {
        assert(segments.take(k) =~= segments);
    } else {
        assert(segments.drop_last().take(k) =~= segments.take(k));
        lemma_error_stays(segments.drop_last(), verbose, k, e);
    }
}

/// From segment `i` on, with the lines of the segments before it in hand, a transcription ends
/// with the lines of all segments or the first error among them.
proof fn lemma_remaining_segments<E>(task: Task<E>, i: int, n: int, model: ModelRun<E>)
    requires
        0 <= i <= n == model.segments.len(),
        n <= i32::MAX,
        segment_lines(model.segments.take(i), task.verbose) == Ok::<Seq<char>, E>(task.lines),
    ensures
        ({
            let (next, action) = task.read_segment(i, n);
            let end = match segment_lines(model.segments, task.verbose) {
                Ok(text) => Todo::Finish { text },
                Err(error) => Todo::Fail { error },
            };
            if next.stage is Over {
                action == end
            } else {
                next.outcome(model.reply(action), model) == end
            }
        }),
    decreases n - i,
{
    let segments = model.segments;
    if i == n {
        assert(segments.take(i) =~= segments);
    } else {
        let reading = task.at(Stage::ReadingText { i, n });
        let segment = segments[i];
        assert(segments.take(i + 1).drop_last() =~= segments.take(i));
        assert(segments.take(i + 1).last() == segment);
        reveal_with_fuel(Task::outcome, 3);
        match segment_line(segment, task.verbose) {
            Err(e) => {
                lemma_error_stays(segments, task.verbose, i + 1, e);
            },
            Ok(line) => {
                let before = if task.verbose {
                    reading.at(
                        Stage::ReadingEnd {
                            i,
                            n,
                            text: segment.text->Ok_0@,
                            start: segment.start->Ok_0 as int,
                        },
                    )
                } else {
                    reading
                };
                lemma_remaining_segments(before.with_line(line), i + 1, n, model);
                assert(before.with_line(line).read_segment(i + 1, n).0 =~= task.with_line(
                    line,
                ).read_segment(i + 1, n).0);
            },
        }
    }
}

/// A transcription ends with the lines of all the segments that the model found, or with the
/// first failure on the way there.
pub proof fn law_transcription_ends_with_its_transcript<E>(verbose: bool, model: ModelRun<E>)
    requires
        model.valid(),
    ensures
        (Task { verbose, stage: Stage::New, lines: Seq::empty() }).outcome(
            TaskEvent::Requested,
            model,
        ) == model.transcript(verbose),
{
    let task = Task::<E> { verbose, stage: Stage::New, lines: Seq::empty() };
    reveal_with_fuel(Task::outcome, 7);
    if model.count is Ok {
        let counting = task.at(Stage::Counting);
        assert(model.segments.take(0) =~= Seq::empty());
        lemma_remaining_segments(counting, 0, model.segments.len() as int, model);
    }
}

/// A model that has been started is not run again.
proof fn lemma_no_further_run<E>(task: Task<E>, event: TaskEvent<E>, model: ModelRun<E>)
    requires
        task.valid(),
        task.awaits(event),
        model.valid(),
        task.steps_ahead() <= 3,
    ensures
        task.runs(event, model) == 0,
    decreases task.steps_ahead(), task.segments_ahead(), task.parts_ahead(),
{
    let (next, action) = task.step(event);
    if !(next.stage is Over) {
        lemma_no_further_run(next, model.reply(action), model);
    }
}

/// A transcription runs the model exactly once, or not at all if no state of it can be created.
pub proof fn law_model_runs_once<E>(verbose: bool, model: ModelRun<E>)
    requires
        model.valid(),
    ensures
        (Task { verbose, stage: Stage::New, lines: Seq::empty() }).runs(
            TaskEvent::Requested,
            model,
        ) == if model.created {
            1nat
        } else {
            0
        },
{
    let task = Task::<E> { verbose, stage: Stage::New, lines: Seq::empty() };
    reveal_with_fuel(Task::runs, 4);
    lemma_no_further_run(task.at(Stage::Running), TaskEvent::Ran(model.run), model);
}

/// The first segment that has no line decides: its error is the transcription's error, whatever
/// the segments behind it say.
pub proof fn law_first_error_decides<E>(
    segments: Seq<SegmentReply<E>>,
    verbose: bool,
    k: int,
    e: E,
)
    requires
        0 <= k < segments.len(),
        forall|i: int| 0 <= i < k ==> segment_line(#[trigger] segments[i], verbose) is Ok,
        segment_line(segments[k], verbose) == Err::<Seq<char>, E>(e),
    ensures
        segment_lines(segments, verbose) == Err::<Seq<char>, E>(e),
{
    law_segments_give_all_their_lines(segments.take(k), verbose);
    assert(segments.take(k + 1).drop_last() =~= segments.take(k));
    lemma_error_stays(segments, verbose, k + 1, e);
}

/// The lines of segments that all have one, one after the other.
pub open spec fn joined_lines<E>(segments: Seq<SegmentReply<E>>, verbose: bool) -> Seq<char>
    decreases segments.len(),
{
    if segments.len() == 0 {
        Seq::empty()
    } else {
        joined_lines(segments.drop_last(), verbose) + segment_line(
            segments.last(),
            verbose,
        )->Ok_0
    }
}

/// Segments without an error give all their lines, in order.
pub proof fn law_segments_give_all_their_lines<E>(segments: Seq<SegmentReply<E>>, verbose: bool)
    requires
        forall|i: int|
            0 <= i < segments.len() ==> segment_line(#[trigger] segments[i], verbose) is Ok,
    ensures
        segment_lines(segments, verbose) == Ok::<Seq<char>, E>(joined_lines(segments, verbose)),
    decreases segments.len(),
{
    if segments.len() > 0 {
        let before = segments.drop_last();
        assert forall|i: int| 0 <= i < before.len() implies segment_line(
            #[trigger] before[i],
            verbose,
        ) is Ok by {
            assert(before[i] == segments[i]);
        }
        law_segments_give_all_their_lines(before, verbose);
        assert(segment_line(segments[segments.len() - 1], verbose) is Ok);
    }
}

/// The model is only created and run while the transcription has its place, which it gets once it
/// is permitted and gives back before anything of the result is read and before it ends.
pub proof fn law_model_runs_in_its_place<E>(task: Task<E>, event: TaskEvent<E>)
    requires
        task.valid(),
        task.awaits(event),
    ensures
        ({
            let (next, action) = task.step(event);
            &&& action is CreateState || action is Run ==> next.permitted()
            &&& !task.permitted() && next.permitted() <==> event is Permitted
            &&& task.permitted() && !next.permitted() <==> event is Released || action is GiveUp
            &&& action is CountSegments || action is ReadText || action is ReadStart
                || action is ReadEnd || action is Finish || action is Fail ==> !next.permitted()
        }),
{
}

/// What each event of a transcription leads to, up to the count of the segments: permit, state,
/// run, release and count, in this order; a run that failed ends with its error, but only once
/// the place is free.
pub proof fn law_course_up_to_the_segments<E>(task: Task<E>, created: bool, run: Result<(), E>)
    ensures
        task.step(TaskEvent::Requested) == (
            Task { stage: Stage::Waiting, ..task },
            Todo::<E>::AcquirePermit,
        ),
        task.step(TaskEvent::Permitted) == (
            Task { stage: Stage::Creating, ..task },
            Todo::<E>::CreateState,
        ),
        task.step(TaskEvent::Created(created)) == if created {
            (Task { stage: Stage::Running, ..task }, Todo::<E>::Run)
        } else {
            (Task { stage: Stage::Over, ..task }, Todo::<E>::GiveUp)
        },
        task.step(TaskEvent::Ran(run)) == (
            Task { stage: Stage::Releasing { run }, ..task },
            Todo::<E>::ReleasePermit,
        ),
        task.stage == (Stage::Releasing { run }) ==> task.step(TaskEvent::Released) == match run {
            Ok(_) => (Task { stage: Stage::Counting, ..task }, Todo::<E>::CountSegments),
            Err(error) => (Task { stage: Stage::Over, ..task }, Todo::Fail { error }),
        },
{
}

/// What each event leads to while the segments are read: they are read from the first to the
/// last, text by text; the times are read if they are wanted, start before end; and what is read
/// goes behind what was read before. An error ends with that error.
pub proof fn law_course_of_the_segments<E>(
    task: Task<E>,
    count: i32,
    i: int,
    n: int,
    text: String,
    seen: Seq<char>,
    start: int,
    time: i64,
    error: E,
)
    requires
        0 <= i < n,
    ensures
        ({
            let over = Task { stage: Stage::Over, ..task };
            let plain = task.lines + text@ + "\n"@;
            let timed = task.lines + "["@ + crate::text::decimal(start) + " - "@
                + crate::text::decimal(time as int) + "]: "@ + seen + "\n"@;
            &&& task.step(TaskEvent::Counted(Err(error))) == (over, Todo::Fail { error })
            &&& task.step(TaskEvent::Counted(Ok(count))) == if count > 0 {
                (
                    Task { stage: Stage::ReadingText { i: 0, n: count as int }, ..task },
                    Todo::<E>::ReadText { i: 0 },
                )
            } else {
                (over, Todo::<E>::Finish { text: task.lines })
            }
            &&& task.step(TaskEvent::Text(Err(error))) == (over, Todo::Fail { error })
            &&& task.step(TaskEvent::Time(Err(error))) == (over, Todo::Fail { error })
            &&& task.stage == (Stage::<E>::ReadingText { i, n }) && task.verbose ==> task.step(
                TaskEvent::Text(Ok(text)),
            ) == (
                Task { stage: Stage::ReadingStart { i, n, text: text@ }, ..task },
                Todo::<E>::ReadStart { i },
            )
            &&& task.stage == (Stage::<E>::ReadingText { i, n }) && !task.verbose ==> task.step(
                TaskEvent::Text(Ok(text)),
            ) == if i + 1 < n {
                (
                    Task { stage: Stage::ReadingText { i: i + 1, n }, lines: plain, ..task },
                    Todo::<E>::ReadText { i: i + 1 },
                )
            } else {
                (Task { lines: plain, ..over }, Todo::<E>::Finish { text: plain })
            }
            &&& task.stage == (Stage::<E>::ReadingStart { i, n, text: seen }) ==> task.step(
                TaskEvent::Time(Ok(time)),
            ) == (
                Task {
                    stage: Stage::ReadingEnd { i, n, text: seen, start: time as int },
                    ..task
                },
                Todo::<E>::ReadEnd { i },
            )
            &&& task.stage == (Stage::<E>::ReadingEnd { i, n, text: seen, start }) ==> task.step(
                TaskEvent::Time(Ok(time)),
            ) == if i + 1 < n {
                (
                    Task { stage: Stage::ReadingText { i: i + 1, n }, lines: timed, ..task },
                    Todo::<E>::ReadText { i: i + 1 },
                )
            } else {
                (Task { lines: timed, ..over }, Todo::<E>::Finish { text: timed })
            }
        }),
{
    assert(task.lines + (text@ + "\n"@) =~= task.lines + text@ + "\n"@);
    assert(task.lines + ("["@ + crate::text::decimal(start) + " - "@ + crate::text::decimal(
        time as int,
    ) + "]: "@ + seen + "\n"@) =~= task.lines + "["@ + crate::text::decimal(start) + " - "@
        + crate::text::decimal(time as int) + "]: "@ + seen + "\n"@);
}

/// Which events can come about: those that answer what the transcription is doing, whatever they
/// carry, but that a count is never negative.
pub proof fn law_every_reply_is_awaited<E>(task: Task<E>, event: TaskEvent<E>)
    ensures
        task.awaits(event) <==> match event {
            TaskEvent::Requested => task.stage is New,
            TaskEvent::Permitted => task.stage is Waiting,
            TaskEvent::Created(created) => task.stage is Creating,
            TaskEvent::Ran(run) => task.stage is Running,
            TaskEvent::Released => task.stage is Releasing,
            TaskEvent::Counted(Ok(n)) => task.stage is Counting && n >= 0,
            TaskEvent::Counted(Err(e)) => task.stage is Counting,
            TaskEvent::Text(text) => task.stage is ReadingText,
            TaskEvent::Time(time) => task.stage is ReadingStart || task.stage is ReadingEnd,
        },
        task.permitted() <==> task.stage is Creating || task.stage is Running
            || task.stage is Releasing,
{
}

/// The mathematical content of an action is all that it carries.
pub proof fn law_nothing_of_a_task_action_is_lost<E>(action: TaskAction<E>)
    ensures
        match action {
            TaskAction::AcquirePermit => action@ is AcquirePermit,
            TaskAction::CreateState => action@ is CreateState,
            TaskAction::Run => action@ is Run,
            TaskAction::ReleasePermit => action@ is ReleasePermit,
            TaskAction::CountSegments => action@ is CountSegments,
            TaskAction::ReadText(i) => action@ == (Todo::<E>::ReadText { i: i as int }),
            TaskAction::ReadStart(i) => action@ == (Todo::<E>::ReadStart { i: i as int }),
            TaskAction::ReadEnd(i) => action@ == (Todo::<E>::ReadEnd { i: i as int }),
            TaskAction::Finish(Ok(text)) => action@ == (Todo::<E>::Finish { text: text@ }),
            TaskAction::Finish(Err(error)) => action@ == (Todo::Fail { error }),
            TaskAction::GiveUp => action@ is GiveUp,
        },
{
}

/// Where the line of a segment starts among the lines of all.
spec fn line_offset<E>(segments: Seq<SegmentReply<E>>, verbose: bool, k: int) -> int
    decreases k,
{
    if k <= 0 {
        0
    } else {
        line_offset(segments, verbose, k - 1) + segment_line(
            segments[k - 1],
            verbose,
        )->Ok_0.len()
    }
}

/// Offsets depend on no segment behind them.
proof fn lemma_line_offset_of_fewer<E>(
    segments: Seq<SegmentReply<E>>,
    verbose: bool,
    k: int,
)
    requires
        segments.len() > 0,
        k < segments.len(),
    ensures
        line_offset(segments.drop_last(), verbose, k) == line_offset(segments, verbose, k),
        line_offset(segments, verbose, k) >= 0,
    decreases k,
{
    if k > 0 {
        lemma_line_offset_of_fewer(segments, verbose, k - 1);
    }
}

/// A later line starts no earlier.
proof fn lemma_line_offsets_grow<E>(segments: Seq<SegmentReply<E>>, verbose: bool, j: int, k: int)
    requires
        0 <= j <= k,
    ensures
        0 <= line_offset(segments, verbose, j) <= line_offset(segments, verbose, k),
    decreases k,
{
    if j < k {
        lemma_line_offsets_grow(segments, verbose, j, k - 1);
    } else if k > 0 {
        lemma_line_offsets_grow(segments, verbose, k - 1, k - 1);
    }
}

/// Joined lines hold each line where it starts.
proof fn lemma_lines_lie_at_their_offsets<E>(
    segments: Seq<SegmentReply<E>>,
    verbose: bool,
    k: int,
)
    requires
        0 <= k <= segments.len(),
    ensures
        joined_lines(segments, verbose).len() == line_offset(
            segments,
            verbose,
            segments.len() as int,
        ),
        k < segments.len() ==> {
            let from = line_offset(segments, verbose, k);
            let line = segment_line(segments[k], verbose)->Ok_0;
            &&& 0 <= from
            &&& from + line.len() <= joined_lines(segments, verbose).len()
            &&& joined_lines(segments, verbose).subrange(from, from + line.len()) == line
        },
    decreases segments.len(),
{
    if segments.len() > 0 {
        let before = segments.drop_last();
        let last = segments.len() - 1;
        let lines = joined_lines(before, verbose);
        let all = joined_lines(segments, verbose);
        lemma_line_offset_of_fewer(segments, verbose, last);
        if k < last {
            lemma_lines_lie_at_their_offsets(before, verbose, k);
            lemma_line_offset_of_fewer(segments, verbose, k);
            let from = line_offset(segments, verbose, k);
            let line = segment_line(segments[k], verbose)->Ok_0;
            assert(before[k] == segments[k]);
            assert(all.subrange(from, from + line.len()) =~= lines.subrange(
                from,
                from + line.len(),
            ));
        } else {
            lemma_lines_lie_at_their_offsets(before, verbose, last);
            if k == last {
                let from = lines.len() as int;
                let line = segment_line(segments[k], verbose)->Ok_0;
                assert(all.subrange(from, from + line.len()) =~= line);
            }
        }
    }
}

/// Where the text of a segment starts in a transcript without times: behind all the texts before
/// it and one more character for each of them.
pub open spec fn plain_offset<E>(segments: Seq<SegmentReply<E>>, k: int) -> int
    decreases k,
{
    if k <= 0 {
        0
    } else {
        plain_offset(segments, k - 1) + segments[k - 1].text->Ok_0@.len() + 1
    }
}

/// A transcription without times loses nothing and adds nothing: when every segment has a text,
/// it is those texts, whole and in order, each with one line break behind it, whatever is said
/// of the times.
pub proof fn law_plain_transcript_is_the_texts<E>(model: ModelRun<E>, k: int)
    requires
        model.valid(),
        model.created,
        model.run is Ok,
        model.count is Ok,
        forall|j: int|
            0 <= j < model.segments.len() ==> (#[trigger] model.segments[j]).text is Ok,
    ensures
        ({
            let segments = model.segments;
            let task = Task::<E> { verbose: false, stage: Stage::New, lines: Seq::empty() };
            &&& task.outcome(TaskEvent::Requested, model) matches Todo::Finish { text }
            &&& text.len() == plain_offset(segments, segments.len() as int)
            &&& 0 <= k < segments.len() ==> {
                let from = plain_offset(segments, k);
                let said = segments[k].text->Ok_0@;
                &&& 0 <= from
                &&& from + said.len() < text.len()
                &&& text.subrange(from, from + said.len()) == said
                &&& text[from + said.len()] == '\n'
            }
        }),
{
    let segments = model.segments;
    reveal_strlit("\n");
    law_transcription_ends_with_its_transcript(false, model);
    law_segments_give_all_their_lines(segments, false);
    lemma_plain_offset(segments, segments.len() as int);
    if 0 <= k < segments.len() {
        lemma_lines_lie_at_their_offsets(segments, false, k);
        lemma_plain_offset(segments, k);
        let from = plain_offset(segments, k);
        let said = segments[k].text->Ok_0@;
        let text = joined_lines(segments, false);
        let line = text.subrange(from, from + said.len() + 1);
        assert(line == said + "\n"@);
        assert(text.subrange(from, from + said.len()) =~= line.take(said.len() as int));
        assert(line.take(said.len() as int) =~= said);
        assert(text[from + said.len()] == line[said.len() as int]);
    } else {
        lemma_lines_lie_at_their_offsets(segments, false, 0);
    }
}

/// The offset of a text is that of its line.
proof fn lemma_plain_offset<E>(segments: Seq<SegmentReply<E>>, k: int)
    requires
        0 <= k <= segments.len(),
        forall|j: int| 0 <= j < segments.len() ==> (#[trigger] segments[j]).text is Ok,
    ensures
        plain_offset(segments, k) == line_offset(segments, false, k),
    decreases k,
{
    reveal_strlit("\n");
    if k > 0 {
        lemma_plain_offset(segments, k - 1);
        assert(segments[k - 1].text is Ok);
    }
}

/// Where the line of a segment starts in a transcript with times: behind all the texts and times
/// before it and eight more characters for each of them.
pub open spec fn timed_offset<E>(segments: Seq<SegmentReply<E>>, k: int) -> int
    decreases k,
{
    if k <= 0 {
        0
    } else {
        timed_offset(segments, k - 1) + crate::text::decimal(
            segments[k - 1].start->Ok_0 as int,
        ).len() + crate::text::decimal(segments[k - 1].end->Ok_0 as int).len()
            + segments[k - 1].text->Ok_0@.len() + 8
    }
}

/// The offset of a line with times is what its parts make it.
proof fn lemma_timed_offset<E>(segments: Seq<SegmentReply<E>>, k: int)
    requires
        0 <= k <= segments.len(),
        forall|j: int|
            0 <= j < segments.len() ==> (#[trigger] segments[j]).text is Ok && segments[j].start
                is Ok && segments[j].end is Ok,
    ensures
        timed_offset(segments, k) == line_offset(segments, true, k),
    decreases k,
{
    reveal_strlit("[");
    reveal_strlit(" - ");
    reveal_strlit("]: ");
    reveal_strlit("\n");
    if k > 0 {
        lemma_timed_offset(segments, k - 1);
        assert(segments[k - 1].text is Ok);
    }
}

/// A transcription with times is the segments, in order, each as its times in brackets, its whole
/// text and a line break, and nothing else, when every segment has a text and both times.
pub proof fn law_verbose_transcript_is_the_texts_with_their_times<E>(model: ModelRun<E>, k: int)
    requires
        model.valid(),
        model.created,
        model.run is Ok,
        model.count is Ok,
        forall|j: int|
            0 <= j < model.segments.len() ==> (#[trigger] model.segments[j]).text is Ok
                && model.segments[j].start is Ok && model.segments[j].end is Ok,
    ensures
        ({
            let segments = model.segments;
            let task = Task::<E> { verbose: true, stage: Stage::New, lines: Seq::empty() };
            &&& task.outcome(TaskEvent::Requested, model) matches Todo::Finish { text }
            &&& text.len() == timed_offset(segments, segments.len() as int)
            &&& 0 <= k < segments.len() ==> {
                let from = timed_offset(segments, k);
                let line = "["@ + crate::text::decimal(segments[k].start->Ok_0 as int) + " - "@
                    + crate::text::decimal(segments[k].end->Ok_0 as int) + "]: "@
                    + segments[k].text->Ok_0@ + "\n"@;
                &&& 0 <= from
                &&& from + line.len() <= text.len()
                &&& text.subrange(from, from + line.len()) == line
            }
        }),
{
    let segments = model.segments;
    law_transcription_ends_with_its_transcript(true, model);
    assert forall|j: int| 0 <= j < segments.len() implies segment_line(
        #[trigger] segments[j],
        true,
    ) is Ok by {
        assert(segments[j].text is Ok);
    }
    law_segments_give_all_their_lines(segments, true);
    lemma_timed_offset(segments, segments.len() as int);
    if 0 <= k < segments.len() {
        lemma_lines_lie_at_their_offsets(segments, true, k);
        lemma_timed_offset(segments, k);
        assert(segments[k].text is Ok);
    } else {
        lemma_lines_lie_at_their_offsets(segments, true, 0);
    }
}

/// The first thing that fails is what a transcription fails with: the run, then the count, then
/// of each segment in turn the text and, if times are wanted, the start and the end. Without a
/// model it is given up.
pub proof fn law_first_failure_is_the_outcome<E>(
    verbose: bool,
    model: ModelRun<E>,
    k: int,
    error: E,
)
    requires
        model.valid(),
    ensures
        ({
            let task = Task::<E> { verbose, stage: Stage::New, lines: Seq::empty() };
            let outcome = task.outcome(TaskEvent::Requested, model);
            let segments = model.segments;
            &&& !model.created ==> outcome is GiveUp
            &&& model.created && model.run == Err::<(), E>(error) ==> outcome == (Todo::Fail {
                error,
            })
            &&& model.created && model.run is Ok && model.count == Err::<i32, E>(error)
                ==> outcome == (Todo::Fail { error })
            &&& {
                &&& model.created
                &&& model.run is Ok
                &&& model.count is Ok
                &&& 0 <= k < segments.len()
                &&& forall|j: int|
                    0 <= j < k ==> (#[trigger] segments[j]).text is Ok && (verbose
                        ==> segments[j].start is Ok && segments[j].end is Ok)
                &&& {
                    ||| segments[k].text == Err::<String, E>(error)
                    ||| verbose && segments[k].text is Ok && segments[k].start == Err::<i64, E>(
                        error,
                    )
                    ||| verbose && segments[k].text is Ok && segments[k].start is Ok
                        && segments[k].end == Err::<i64, E>(error)
                }
            } ==> outcome == (Todo::Fail { error })
        }),
{
    let segments = model.segments;
    law_transcription_ends_with_its_transcript(verbose, model);
    if 0 <= k < segments.len() && (forall|j: int|
        0 <= j < k ==> (#[trigger] segments[j]).text is Ok && (verbose ==> segments[j].start is Ok
            && segments[j].end is Ok)) && segment_line(segments[k], verbose) == Err::<
        Seq<char>,
        E,
    >(error) {
        assert forall|j: int| 0 <= j < k implies segment_line(#[trigger] segments[j], verbose)
            is Ok by {
            assert(segments[j].text is Ok);
        }
        law_first_error_decides(segments, verbose, k, error);
    }
}

} // verus!
