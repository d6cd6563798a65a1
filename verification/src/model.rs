//! Loading the model, and taking a fresh state of it for each transcription.

use vstd::prelude::*;

use crate::transcript::TaskEvent;

verus! {

/// How far loading has come. Each step but the first says whether it worked.
#[derive(Clone, Copy, Debug, PartialEq, Eq, Structural)]
pub enum LoadProgress {
    Nothing,
    ModelOpened(bool),
    EncoderInitialized(bool),
    ModelStored(bool),
    LimitStored(bool),
}

/// What to do next to load the model.
#[derive(Clone, Copy, Debug, PartialEq, Eq, Structural)]
pub enum LoadAction {
    /// Open the model file.
    OpenModel,
    /// Set up the encoder of the opened model.
    InitializeEncoder,
    /// Store the model where transcriptions find it. Works only once.
    StoreModel,
    /// Store how many transcriptions may run at once. Works only once.
    StoreLimit { permits: usize },
    /// Done.
    Ready,
    /// Give up.
    Fail(LoadFailure),
}

/// Why the model was not loaded.
#[derive(Clone, Copy, Debug, PartialEq, Eq, Structural)]
pub enum LoadFailure {
    /// The model file could not be opened.
    ModelNotLoaded,
    /// The encoder could not be set up: the process exits with this status.
    EncoderNotInitialized { exit_status: i32 },
    /// A model was stored before.
    ModelAlreadySet,
    /// A limit was stored before.
    LimitAlreadySet,
}

/// The next step after one that worked, and the failure of one that did not.
pub open spec fn load_action(progress: LoadProgress, instances: usize) -> LoadAction {
    match progress {
        LoadProgress::Nothing => LoadAction::OpenModel,
        LoadProgress::ModelOpened(true) => LoadAction::InitializeEncoder,
        LoadProgress::EncoderInitialized(true) => LoadAction::StoreModel,
        LoadProgress::ModelStored(true) => LoadAction::StoreLimit { permits: instances },
        LoadProgress::LimitStored(true) => LoadAction::Ready,
        LoadProgress::ModelOpened(false) => LoadAction::Fail(LoadFailure::ModelNotLoaded),
        LoadProgress::EncoderInitialized(false) => LoadAction::Fail(
            LoadFailure::EncoderNotInitialized { exit_status: 1 },
        ),
        LoadProgress::ModelStored(false) => LoadAction::Fail(LoadFailure::ModelAlreadySet),
        LoadProgress::LimitStored(false) => LoadAction::Fail(LoadFailure::LimitAlreadySet),
    }
}

/// What performing a step leads to, whether or not it works.
pub open spec fn load_progress(action: LoadAction, worked: bool) -> Option<LoadProgress> {
    match action {
        LoadAction::OpenModel => Some(LoadProgress::ModelOpened(worked)),
        LoadAction::InitializeEncoder => Some(LoadProgress::EncoderInitialized(worked)),
        LoadAction::StoreModel => Some(LoadProgress::ModelStored(worked)),
        LoadAction::StoreLimit { permits } => Some(LoadProgress::LimitStored(worked)),
        LoadAction::Ready => None,
        LoadAction::Fail(failure) => None,
    }
}

/// How loading ends when its steps work or not as `worked` says, from some point on.
pub open spec fn load_outcome(
    progress: LoadProgress,
    instances: usize,
    worked: Seq<bool>,
) -> LoadAction
    decreases worked.len(),
{
    let action = load_action(progress, instances);
    match load_progress(action, worked.first()) {
        Some(next) if worked.len() > 0 => load_outcome(next, instances, worked.drop_first()),
        _ => action,
    }
}

/// The model is ready exactly when all four steps work; the first that does not ends loading
/// with its failure.
pub proof fn law_model_is_ready_when_every_step_works(
    instances: usize,
    opened: bool,
    initialized: bool,
    stored: bool,
    limited: bool,
)
    ensures
        load_outcome(
            LoadProgress::Nothing,
            instances,
            seq![opened, initialized, stored, limited],
        ) == if !opened {
            LoadAction::Fail(LoadFailure::ModelNotLoaded)
        } else if !initialized {
            LoadAction::Fail(LoadFailure::EncoderNotInitialized { exit_status: 1 })
        } else if !stored {
            LoadAction::Fail(LoadFailure::ModelAlreadySet)
        } else if !limited {
            LoadAction::Fail(LoadFailure::LimitAlreadySet)
        } else {
            LoadAction::Ready
        },
{
    let all = seq![opened, initialized, stored, limited];
    assert(all.drop_first() =~= seq![initialized, stored, limited]);
    assert(seq![initialized, stored, limited].drop_first() =~= seq![stored, limited]);
    assert(seq![stored, limited].drop_first() =~= seq![limited]);
    reveal_with_fuel(load_outcome, 6);
}

/// Loads the model, step by step, for so many transcriptions at once.
pub fn load_models(progress: LoadProgress, instances: usize) -> (action: LoadAction)
    ensures
        action == load_action(progress, instances),
{
    match progress {
        LoadProgress::Nothing => LoadAction::OpenModel,
        LoadProgress::ModelOpened(opened) => if opened {
            LoadAction::InitializeEncoder
        } else {
            LoadAction::Fail(LoadFailure::ModelNotLoaded)
        },
        LoadProgress::EncoderInitialized(initialized) => if initialized {
            LoadAction::StoreModel
        } else {
            LoadAction::Fail(LoadFailure::EncoderNotInitialized { exit_status: 1 })
        },
        LoadProgress::ModelStored(stored) => if stored {
            LoadAction::StoreLimit { permits: instances }
        } else {
            LoadAction::Fail(LoadFailure::ModelAlreadySet)
        },
        LoadProgress::LimitStored(stored) => if stored {
            LoadAction::Ready
        } else {
            LoadAction::Fail(LoadFailure::LimitAlreadySet)
        },
    }
}

/// The state to run a transcription on. `created` is what creating one came to, or nothing if no
/// model is loaded.
pub fn get_new_model<S, E>(created: Option<Result<S, E>>) -> (state: Option<S>)
    ensures
        state == match created {
            Some(Ok(state)) => Some(state),
            _ => None,
        },
{
    match created {
        Some(Ok(state)) => Some(state),
        Some(Err(_)) => None,
        None => None,
    }
}

/// How many transcriptions are waiting for the model.
#[derive(Clone, Copy, Debug, PartialEq, Eq, Structural)]
pub struct WaitingCount {
    pub waiting: usize,
}

/// The number of waiting transcriptions after an event of one of them: it waits from when it is
/// asked for until it may run.
pub open spec fn waiting_after<E>(waiting: int, event: TaskEvent<E>) -> int {
    match event {
        TaskEvent::Requested => waiting + 1,
        TaskEvent::Permitted => waiting - 1,
        _ => waiting,
    }
}

impl WaitingCount {
    /// Takes in an event of a transcription.
    pub fn observe<E>(&mut self, event: &TaskEvent<E>)
        requires
            0 <= waiting_after(old(self).waiting as int, *event) <= usize::MAX,
        ensures
            final(self).waiting == waiting_after(old(self).waiting as int, *event),
    {
        match event {
            TaskEvent::Requested => {
                self.waiting = self.waiting + 1;
            },
            TaskEvent::Permitted => {
                self.waiting = self.waiting - 1;
            },
            _ => {},
        }
    }
}

/// The load of the server: the number of waiting transcriptions.
pub fn get_load(count: &WaitingCount) -> (load: usize)
    ensures
        load == count.waiting,
{
    count.waiting
}

/// All that is done to load the model from some point on, in order, when its steps work or not as
/// `worked` says.
pub open spec fn load_course(
    progress: LoadProgress,
    instances: usize,
    worked: Seq<bool>,
) -> Seq<LoadAction>
    decreases worked.len(),
{
    let action = load_action(progress, instances);
    match load_progress(action, worked.first()) {
        Some(next) if worked.len() > 0 => seq![action] + load_course(
            next,
            instances,
            worked.drop_first(),
        ),
        _ => seq![action],
    }
}

/// Loading stores the very number of transcriptions at once that was asked for, whatever it is,
/// and stores it once, right behind the model.
pub proof fn law_limit_is_the_number_asked_for(instances: usize, limited: bool)
    ensures
        load_action(LoadProgress::ModelStored(true), instances) == (LoadAction::StoreLimit {
            permits: instances,
        }),
        forall|progress: LoadProgress|
            #[trigger] load_action(progress, instances) is StoreLimit ==> progress
                == LoadProgress::ModelStored(true),
        load_course(LoadProgress::Nothing, instances, seq![true, true, true, limited]) == seq![
            LoadAction::OpenModel,
            LoadAction::InitializeEncoder,
            LoadAction::StoreModel,
            LoadAction::StoreLimit { permits: instances },
            if limited {
                LoadAction::Ready
            } else {
                LoadAction::Fail(LoadFailure::LimitAlreadySet)
            },
        ],
{
    let all = seq![true, true, true, limited];
    assert(all.drop_first() =~= seq![true, true, limited]);
    assert(seq![true, true, limited].drop_first() =~= seq![true, limited]);
    assert(seq![true, limited].drop_first() =~= seq![limited]);
    reveal_with_fuel(load_course, 6);
}

/// A step of loading that fails ends it there: nothing that comes later is done.
pub proof fn law_nothing_follows_a_failed_step(instances: usize)
    ensures
        load_course(LoadProgress::Nothing, instances, seq![false]) == seq![
            LoadAction::OpenModel,
            LoadAction::Fail(LoadFailure::ModelNotLoaded),
        ],
        load_course(LoadProgress::Nothing, instances, seq![true, false]) == seq![
            LoadAction::OpenModel,
            LoadAction::InitializeEncoder,
            LoadAction::Fail(LoadFailure::EncoderNotInitialized { exit_status: 1 }),
        ],
        load_course(LoadProgress::Nothing, instances, seq![true, true, false]) == seq![
            LoadAction::OpenModel,
            LoadAction::InitializeEncoder,
            LoadAction::StoreModel,
            LoadAction::Fail(LoadFailure::ModelAlreadySet),
        ],
{
    assert(seq![true, true, false].drop_first() =~= seq![true, false]);
    assert(seq![true, false].drop_first() =~= seq![false]);
    reveal_with_fuel(load_course, 5);
}

/// A transcription counts as waiting from when it is asked for until it may run: those two events
/// change the count by one, and no other event changes it.
pub proof fn law_waiting_starts_with_the_request_and_ends_with_the_permit<E>(
    waiting: int,
    event: TaskEvent<E>,
)
    ensures
        event is Requested ==> waiting_after(waiting, event) == waiting + 1,
        event is Permitted ==> waiting_after(waiting, event) == waiting - 1,
        !(event is Requested) && !(event is Permitted) ==> waiting_after(waiting, event)
            == waiting,
{
}

} // verus!
