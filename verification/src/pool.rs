//! Transcriptions side by side: how many run at once, and how many wait.

use vstd::prelude::*;

use crate::transcript::{Stage, Task, TaskEvent};

verus! {

/// Transcriptions, and the places of those that run at once.
#[verifier::ext_equal]
pub struct Pool<E> {
    pub places: nat,
    /// The places that no transcription has.
    pub free: int,
    /// What a [`crate::model::WaitingCount`] says that has taken in every event.
    pub waiting: int,
    pub tasks: Seq<Task<E>>,
}

/// How many of the transcriptions have a place.
pub open spec fn running<E>(tasks: Seq<Task<E>>) -> nat
    decreases tasks.len(),
{
    if tasks.len() == 0 {
        0
    } else if tasks.last().permitted() {
        running(tasks.drop_last()) + 1
    } else {
        running(tasks.drop_last())
    }
}

/// How many of the transcriptions wait for a place.
pub open spec fn waiting<E>(tasks: Seq<Task<E>>) -> nat
    decreases tasks.len(),
{
    if tasks.len() == 0 {
        0
    } else if tasks.last().stage is Waiting {
        waiting(tasks.drop_last()) + 1
    } else {
        waiting(tasks.drop_last())
    }
}

impl<E> Pool<E> {
    /// One transcription for each entry of `verbose`, none of which has begun.
    pub open spec fn new(places: nat, verbose: Seq<bool>) -> Pool<E> {
        Pool {
            places,
            free: places as int,
            waiting: 0,
            tasks: Seq::new(
                verbose.len(),
                |i: int| Task { verbose: verbose[i], stage: Stage::New, lines: Seq::empty() },
            ),
        }
    }

    /// The events that can come about for transcription `i`. One is permitted to run only while
    /// a place is free.
    pub open spec fn awaits(self, i: int, event: TaskEvent<E>) -> bool {
        &&& 0 <= i < self.tasks.len()
        &&& self.tasks[i].awaits(event)
        &&& event is Permitted ==> self.free > 0
    }

    /// The pool after an event of transcription `i`. A place is taken by the one that is
    /// permitted to run, and free again when it is released or the transcription is given up.
    pub open spec fn step(self, i: int, event: TaskEvent<E>) -> Pool<E> {
        let (next, action) = self.tasks[i].step(event);
        Pool {
            places: self.places,
            free: if event is Permitted {
                self.free - 1
            } else if event is Released || action is GiveUp {
                self.free + 1
            } else {
                self.free
            },
            waiting: crate::model::waiting_after(self.waiting, event),
            tasks: self.tasks.update(i, next),
        }
    }

    /// The pool after several events, each of some transcription.
    pub open spec fn after(self, events: Seq<(int, TaskEvent<E>)>) -> Pool<E>
        decreases events.len(),
    {
        if events.len() == 0 {
            self
        } else {
            self.after(events.drop_last()).step(events.last().0, events.last().1)
        }
    }

    /// Whether several events can come about, one after the other.
    pub open spec fn allows(self, events: Seq<(int, TaskEvent<E>)>) -> bool
        decreases events.len(),
    {
        events.len() > 0 ==> {
            &&& self.allows(events.drop_last())
            &&& self.after(events.drop_last()).awaits(events.last().0, events.last().1)
        }
    }

    /// What holds of every pool: the places add up, and so do those who wait.
    pub open spec fn valid(self) -> bool {
        &&& forall|i: int| 0 <= i < self.tasks.len() ==> (#[trigger] self.tasks[i]).valid()
        &&& self.free >= 0
        &&& self.free + running(self.tasks) == self.places
        &&& self.waiting == waiting(self.tasks)
    }
}

/// Changing one transcription changes the numbers by what that one counts.
proof fn lemma_counts_after_update<E>(tasks: Seq<Task<E>>, i: int, next: Task<E>)
    requires
        0 <= i < tasks.len(),
    ensures
        running(tasks.update(i, next)) == running(tasks) - (if tasks[i].permitted() {
            1int
        } else {
            0
        }) + (if next.permitted() {
            1int
        } else {
            0
        }),
        waiting(tasks.update(i, next)) == waiting(tasks) - (if tasks[i].stage is Waiting {
            1int
        } else {
            0
        }) + (if next.stage is Waiting {
            1int
        } else {
            0
        }),
    decreases tasks.len(),
{
    let updated = tasks.update(i, next);
    if i == tasks.len() - 1 {
        assert(updated.drop_last() =~= tasks.drop_last());
    } else {
        lemma_counts_after_update(tasks.drop_last(), i, next);
        assert(updated.drop_last() =~= tasks.drop_last().update(i, next));
    }
}

/// Without a transcription that has a place, none is counted as running.
proof fn lemma_none_runs<E>(tasks: Seq<Task<E>>)
    requires
        forall|i: int| 0 <= i < tasks.len() ==> !(#[trigger] tasks[i]).permitted(),
    ensures
        running(tasks) == 0,
    decreases tasks.len(),
{
    if tasks.len() > 0 {
        assert(!tasks[tasks.len() - 1].permitted());
        assert forall|i: int| 0 <= i < tasks.drop_last().len() implies !(
        #[trigger] tasks.drop_last()[i]).permitted() by {
            assert(!tasks[i].permitted());
        }
        lemma_none_runs(tasks.drop_last());
    }
}

/// A transcription that waits is counted.
proof fn lemma_waiting_counts<E>(tasks: Seq<Task<E>>, i: int)
    requires
        0 <= i < tasks.len(),
        tasks[i].stage is Waiting,
    ensures
        waiting(tasks) > 0,
    decreases tasks.len(),
{
    if i < tasks.len() - 1 {
        lemma_waiting_counts(tasks.drop_last(), i);
    }
}

/// A pool in which no transcription has begun counts none.
proof fn lemma_new_pool_is_valid<E>(tasks: Seq<Task<E>>)
    requires
        forall|i: int| 0 <= i < tasks.len() ==> (#[trigger] tasks[i]).stage is New,
    ensures
        running(tasks) == 0,
        waiting(tasks) == 0,
    decreases tasks.len(),
{
    if tasks.len() > 0 {
        assert(tasks[tasks.len() - 1].stage is New);
        assert forall|i: int| 0 <= i < tasks.drop_last().len() implies (
        #[trigger] tasks.drop_last()[i]).stage is New by {
            assert(tasks[i].stage is New);
        }
        lemma_new_pool_is_valid(tasks.drop_last());
    }
}

/// Every event that can come about keeps a pool valid.
pub proof fn law_events_keep_a_pool_valid<E>(pool: Pool<E>, i: int, event: TaskEvent<E>)
    requires
        pool.valid(),
        pool.awaits(i, event),
    ensures
        pool.step(i, event).valid(),
{
    let next = pool.tasks[i].step(event).0;
    lemma_counts_after_update(pool.tasks, i, next);
    crate::transcript::law_model_runs_in_its_place(pool.tasks[i], event);
    assert(next.valid());
}

/// A pool stays valid whatever comes about in it.
proof fn lemma_reached_pool_is_valid<E>(
    places: nat,
    verbose: Seq<bool>,
    events: Seq<(int, TaskEvent<E>)>,
)
    requires
        Pool::new(places, verbose).allows(events),
    ensures
        Pool::new(places, verbose).after(events).valid(),
        Pool::new(places, verbose).after(events).places == places,
    decreases events.len(),
{
    let start = Pool::<E>::new(places, verbose);
    if events.len() == 0 {
        lemma_new_pool_is_valid(start.tasks);
    } else {
        lemma_reached_pool_is_valid(places, verbose, events.drop_last());
        law_events_keep_a_pool_valid(
            start.after(events.drop_last()),
            events.last().0,
            events.last().1,
        );
    }
}

/// However the steps of any number of transcriptions interleave, no more of them run at once
/// than there are places, and every place is with a transcription or free. When none runs, all
/// places are free again.
pub proof fn law_no_more_run_than_there_are_places<E>(
    places: nat,
    verbose: Seq<bool>,
    events: Seq<(int, TaskEvent<E>)>,
)
    requires
        Pool::new(places, verbose).allows(events),
    ensures
        ({
            let pool = Pool::new(places, verbose).after(events);
            &&& running(pool.tasks) <= places
            &&& pool.free == places - running(pool.tasks)
            &&& (forall|i: int|
                0 <= i < pool.tasks.len() ==> !(#[trigger] pool.tasks[i]).permitted())
                ==> pool.free == places
            &&& (forall|i: int|
                0 <= i < pool.tasks.len() ==> (#[trigger] pool.tasks[i]).stage is Over)
                ==> pool.free == places
        }),
{
    lemma_reached_pool_is_valid(places, verbose, events);
    let pool = Pool::new(places, verbose).after(events);
    if forall|i: int| 0 <= i < pool.tasks.len() ==> !(#[trigger] pool.tasks[i]).permitted() {
        lemma_none_runs(pool.tasks);
    }
    if forall|i: int| 0 <= i < pool.tasks.len() ==> (#[trigger] pool.tasks[i]).stage is Over {
        assert forall|i: int| 0 <= i < pool.tasks.len() implies !(
        #[trigger] pool.tasks[i]).permitted() by {
            assert(pool.tasks[i].stage is Over);
        }
        lemma_none_runs(pool.tasks);
    }
}

/// The load is the number of transcriptions that wait for a place, however their steps
/// interleave. So it is above zero while any of them waits.
pub proof fn law_load_is_the_waiting_transcriptions<E>(
    places: nat,
    verbose: Seq<bool>,
    events: Seq<(int, TaskEvent<E>)>,
)
    requires
        Pool::new(places, verbose).allows(events),
    ensures
        ({
            let pool = Pool::new(places, verbose).after(events);
            &&& pool.waiting == waiting(pool.tasks)
            &&& forall|i: int|
                0 <= i < pool.tasks.len() && (#[trigger] pool.tasks[i]).stage is Waiting
                    ==> pool.waiting > 0
        }),
{
    lemma_reached_pool_is_valid(places, verbose, events);
    let pool = Pool::new(places, verbose).after(events);
    assert forall|i: int|
        0 <= i < pool.tasks.len() && (#[trigger] pool.tasks[i]).stage is Waiting implies
        pool.waiting > 0 by {
        lemma_waiting_counts(pool.tasks, i);
    }
}

} // verus!
