//! Jobs: operations of the pipeline as lists of actions, carried out one at a
//! time and abandoned at the first failure.

use crate::command::{action_views, Action, ActionView, Event, EventView};
use crate::error::{failure, failure_of, NdkError, NdkErrorView};
use vstd::prelude::*;

verus! {

/// An operation under way. It holds the actions of the operation in order,
/// knows which of them is due, and keeps two values: the one that the
/// operation yields once the last action has succeeded, and the one that
/// the caller gets back if an action does not succeed.
#[derive(Debug)]
pub struct Job<T, R> {
    actions: Vec<Action>,
    cursor: usize,
    result: T,
    fallback: R,
}

/// Where an operation stands.
#[derive(Debug)]
pub enum Progress<T, R> {
    /// An action is due: carry out [`Job::action`] and report with
    /// [`Job::step`].
    Continue(Job<T, R>),
    /// Every action succeeded; here is what the operation yields.
    Finished(T),
    /// An action did not succeed. No further action of the operation is due;
    /// here is why, and what the caller gets back.
    Failed(NdkError, R),
}

/// A job as contracts see it.
pub struct JobState<T, R> {
    /// All actions of the operation, in order.
    pub plan: Seq<ActionView>,
    /// How many of them have succeeded. The action at this index is due.
    pub position: int,
    /// What the operation yields when all have succeeded.
    pub result: T,
    /// What the caller gets back when one has not.
    pub fallback: R,
}

pub enum ProgressView<T, R> {
    Continue(JobState<T, R>),
    Finished(T),
    Failed(NdkErrorView, R),
}

/// Where an operation with these actions stands before any of them is
/// carried out: at the first action, or already finished if there is none.
pub open spec fn start<T, R>(plan: Seq<ActionView>, result: T, fallback: R) -> ProgressView<
    T,
    R,
> {
    if plan.len() == 0 {
        ProgressView::Finished(result)
    } else {
        ProgressView::Continue(JobState { plan, position: 0, result, fallback })
    }
}

/// Where an operation stands after the action that was due has been carried
/// out with the given event: at the next action after a success, finished
/// after the success of the last action, failed otherwise. A failed
/// operation hands back what it kept for that case.
pub open spec fn next<T, R>(state: JobState<T, R>, event: EventView) -> ProgressView<T, R> {
    if event is Succeeded {
        if state.position + 1 >= state.plan.len() {
            ProgressView::Finished(state.result)
        } else {
            ProgressView::Continue(JobState { position: state.position + 1, ..state })
        }
    } else {
        ProgressView::Failed(failure_of(state.plan[state.position], event), state.fallback)
    }
}

/// Where an operation stands after `events` have been reported, one for
/// each action that was carried out. Events that come when no action is due
/// count for nothing.
pub open spec fn run<T, R>(progress: ProgressView<T, R>, events: Seq<EventView>) -> ProgressView<T, R>
    decreases events.len(),
{
    if events.len() == 0 {
        progress
    } else {
        match progress {
            ProgressView::Continue(state) => run(next(state, events[0]), events.drop_first()),
            _ => progress,
        }
    }
}

/// The actions that are carried out while `events` are reported, in the
/// order in which they are.
pub open spec fn attempted<T, R>(progress: ProgressView<T, R>, events: Seq<EventView>) -> Seq<ActionView>
    decreases events.len(),
{
    if events.len() == 0 {
        Seq::empty()
    } else {
        match progress {
            ProgressView::Continue(state) => seq![state.plan[state.position]] + attempted(
                next(state, events[0]),
                events.drop_first(),
            ),
            _ => Seq::empty(),
        }
    }
}

/// Once an operation has finished or failed, nothing more is carried out,
/// whatever is reported.
pub proof fn lemma_nothing_after_the_end<T, R>(progress: ProgressView<T, R>, events: Seq<EventView>)
    requires
        !(progress is Continue),
    ensures
        run(progress, events) == progress,
        attempted(progress, events) == Seq::<ActionView>::empty(),
{
}

proof fn lemma_succeed_from<T, R>(state: JobState<T, R>, events: Seq<EventView>)
    requires
        0 <= state.position < state.plan.len(),
        events.len() == state.plan.len() - state.position,
        forall|i: int| 0 <= i < events.len() ==> events[i] is Succeeded,
    ensures
        run(ProgressView::Continue(state), events) == ProgressView::<T, R>::Finished(
            state.result,
        ),
        attempted(ProgressView::Continue(state), events) == state.plan.skip(state.position),
    decreases events.len(),
{
    let rest = events.drop_first();
    let after = next(state, events[0]);
    if state.position + 1 == state.plan.len() {
        lemma_nothing_after_the_end(after, rest);
    } else {
        assert forall|i: int| 0 <= i < rest.len() implies rest[i] is Succeeded by {
            assert(rest[i] == events[i + 1]);
        }
        lemma_succeed_from(JobState { position: state.position + 1, ..state }, rest);
    }
    assert(attempted(ProgressView::Continue(state), events) =~= state.plan.skip(state.position));
}

proof fn lemma_fail_from<T, R>(state: JobState<T, R>, events: Seq<EventView>)
    requires
        0 <= state.position < state.plan.len(),
        0 < events.len() <= state.plan.len() - state.position,
        forall|i: int| 0 <= i < events.len() - 1 ==> events[i] is Succeeded,
        !(events.last() is Succeeded),
    ensures
        run(ProgressView::Continue(state), events) == ProgressView::<T, R>::Failed(
            failure_of(state.plan[state.position + events.len() - 1], events.last()),
            state.fallback,
        ),
        attempted(ProgressView::Continue(state), events) == state.plan.subrange(
            state.position,
            state.position + events.len(),
        ),
    decreases events.len(),
{
    let rest = events.drop_first();
    let after = next(state, events[0]);
    if events.len() == 1 {
        lemma_nothing_after_the_end(after, rest);
    } else {
        assert forall|i: int| 0 <= i < rest.len() - 1 implies rest[i] is Succeeded by {
            assert(rest[i] == events[i + 1]);
        }
        assert(rest.last() == events.last());
        lemma_fail_from(JobState { position: state.position + 1, ..state }, rest);
    }
    assert(attempted(ProgressView::Continue(state), events) =~= state.plan.subrange(
        state.position,
        state.position + events.len(),
    ));
}

/// An operation whose actions all succeed carries out each of its actions
/// once, in order, and then yields its result.
pub proof fn lemma_all_succeed<T, R>(
    plan: Seq<ActionView>,
    result: T,
    fallback: R,
    events: Seq<EventView>,
)
    requires
        events.len() == plan.len(),
        forall|i: int| 0 <= i < events.len() ==> events[i] is Succeeded,
    ensures
        run(start(plan, result, fallback), events) == ProgressView::<T, R>::Finished(result),
        attempted(start(plan, result, fallback), events) == plan,
{
    if plan.len() > 0 {
        lemma_succeed_from(JobState { plan, position: 0, result, fallback }, events);
        assert(plan.skip(0) =~= plan);
    } else {
        assert(attempted(start(plan, result, fallback), events) =~= plan);
    }
}

/// An operation stops at the first action that does not succeed. The
/// actions before it have been carried out once each, in order; it is the
/// last one that is carried out, and the operation fails with its error and
/// hands back what it kept for that case. No action behind it is carried
/// out.
pub proof fn lemma_stops_at_first_failure<T, R>(
    plan: Seq<ActionView>,
    result: T,
    fallback: R,
    events: Seq<EventView>,
)
    requires
        0 < events.len() <= plan.len(),
        forall|i: int| 0 <= i < events.len() - 1 ==> events[i] is Succeeded,
        !(events.last() is Succeeded),
    ensures
        run(start(plan, result, fallback), events) == ProgressView::<T, R>::Failed(
            failure_of(plan[events.len() - 1], events.last()),
            fallback,
        ),
        attempted(start(plan, result, fallback), events) == plan.take(events.len() as int),
{
    lemma_fail_from(JobState { plan, position: 0, result, fallback }, events);
}

/// An operation yields its result only after every one of its actions has
/// succeeded: a step finishes the operation only if it reports the success
/// of the last action.
pub proof fn lemma_finished_only_after_last_success<T, R>(state: JobState<T, R>, event: EventView)
    requires
        0 <= state.position < state.plan.len(),
        next(state, event) is Finished,
    ensures
        event is Succeeded,
        state.position == state.plan.len() - 1,
        next(state, event) == ProgressView::<T, R>::Finished(state.result),
{
}

/// An operation that fails hands back what it kept for that case, and fails
/// only on an action that did not succeed.
pub proof fn lemma_failed_hands_back<T, R>(state: JobState<T, R>, event: EventView)
    requires
        next(state, event) is Failed,
    ensures
        !(event is Succeeded),
        next(state, event) == ProgressView::<T, R>::Failed(
            failure_of(state.plan[state.position], event),
            state.fallback,
        ),
{
}

impl<T, R> View for Job<T, R> {
    type V = JobState<T, R>;

    closed spec fn view(&self) -> JobState<T, R> {
        JobState {
            plan: action_views(self.actions@),
            position: self.cursor as int,
            result: self.result,
            fallback: self.fallback,
        }
    }
}

impl<T, R> View for Progress<T, R> {
    type V = ProgressView<T, R>;

    open spec fn view(&self) -> ProgressView<T, R> {
        match self {
            Progress::Continue(job) => ProgressView::Continue(job@),
            Progress::Finished(result) => ProgressView::Finished(*result),
            Progress::Failed(error, fallback) => ProgressView::Failed(error@, *fallback),
        }
    }
}

impl<T, R> Job<T, R> {
    #[verifier::type_invariant]
    spec fn due(&self) -> bool {
        self.cursor < self.actions.len()
    }

    /// Begins the operation that consists of `actions`, yields `result`, and
    /// hands back `fallback` if it fails.
    pub fn begin(actions: Vec<Action>, result: T, fallback: R) -> (progress: Progress<T, R>)
        ensures
            progress@ == start(action_views(actions@), result, fallback),
    {
        if actions.len() == 0 {
            Progress::Finished(result)
        } else {
            Progress::Continue(Job { actions, cursor: 0, result, fallback })
        }
    }

    /// The action that is due.
    pub fn action(&self) -> (action: &Action)
        ensures
            0 <= self@.position < self@.plan.len(),
            action@ == self@.plan[self@.position],
    {
        proof {
            use_type_invariant(self);
        }
        &self.actions[self.cursor]
    }

    /// Gives the operation up where it stands. The action that is due is not
    /// carried out, and the caller gets back what the operation kept for the
    /// case that it fails.
    pub fn abandon(self) -> (kept: R)
        ensures
            kept == self@.fallback,
    {
        self.fallback
    }

    /// Takes note of what came of the action that was due.
    pub fn step(self, event: Event) -> (progress: Progress<T, R>)
        ensures
            progress@ == next(self@, event@),
    {
        proof {
            use_type_invariant(&self);
        }
        let Job { actions, cursor, result, fallback } = self;
        match event {
            Event::Succeeded => {
                if cursor + 1 == actions.len() {
                    Progress::Finished(result)
                } else {
                    Progress::Continue(Job { actions, cursor: cursor + 1, result, fallback })
                }
            },
            event => {
                let mut actions = actions;
                let action = actions.swap_remove(cursor);
                Progress::Failed(failure(action, event), fallback)
            },
        }
    }
}

} // verus!
