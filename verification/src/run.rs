//! What holds of every run of the driver: the work that a plan stands for,
//! and how the actions of a run relate to it.

use crate::account::{sequence_query_of, AccountId};
use crate::call::{AdministrativeCall, LoadKind};
use crate::driver::{
    continue_identifier, first_move, leave_identifier, progress_wf, step_model, ActionView,
    BatchPlan, EventView, FailurePolicy, OutcomeView, Progress, Stage,
};
use crate::notice::NoticeView;
use vstd::prelude::*;

verus! {

/// What a run does to the world: it opens connections and submits calls.
pub enum Effect {
    /// A connection to the node of parachain `id` is opened.
    Connect { id: u32 },
    /// `call` is submitted to the node of parachain `id`.
    Submit { id: u32, call: AdministrativeCall },
}

/// The submissions that a plan holds for parachain `id` once the load
/// `done` has been set (`None`: none yet): storage first where the plan
/// has a storage value, then compute where it has a compute value.
pub open spec fn loads_after(plan: BatchPlan, id: u32, done: Option<LoadKind>) -> Seq<Effect> {
    (if done is None && plan.storage is Some {
        seq![Effect::Submit { id, call: plan.call(LoadKind::Storage) }]
    } else {
        Seq::<Effect>::empty()
    }) + (if done != Some(LoadKind::Compute) && plan.compute is Some {
        seq![Effect::Submit { id, call: plan.call(LoadKind::Compute) }]
    } else {
        Seq::<Effect>::empty()
    })
}

/// The work that a plan holds for parachain `id`: one connection, then the
/// submissions.
pub open spec fn work_on(plan: BatchPlan, id: u32) -> Seq<Effect> {
    seq![Effect::Connect { id }] + loads_after(plan, id, None)
}

/// The work that a plan holds for the parachains from `id` on, in ascending
/// order.
pub open spec fn planned_from(plan: BatchPlan, id: int) -> Seq<Effect>
    decreases plan.to - id + 1,
{
    if id > plan.to || id < 0 {
        Seq::<Effect>::empty()
    } else {
        work_on(plan, id as u32) + planned_from(plan, id + 1)
    }
}

/// All the work that a plan holds.
pub open spec fn planned(plan: BatchPlan) -> Seq<Effect> {
    planned_from(plan, plan.from as int)
}

/// The work that is still to come when a run stands at `at` and nothing
/// fails.
pub open spec fn remaining(plan: BatchPlan, at: Progress) -> Seq<Effect> {
    match at.stage {
        Stage::Connecting => loads_after(plan, at.id, None) + planned_from(plan, at.id + 1),
        Stage::FetchingSequence(kind) => seq![Effect::Submit { id: at.id, call: plan.call(kind) }]
            + loads_after(plan, at.id, Some(kind)) + planned_from(plan, at.id + 1),
        Stage::AwaitingFinality(kind) => loads_after(plan, at.id, Some(kind)) + planned_from(
            plan,
            at.id + 1,
        ),
        Stage::Finished => Seq::<Effect>::empty(),
    }
}

/// The effect of an action that is asked for while the run stands at `at`.
pub open spec fn effect_of(at: Progress, action: ActionView) -> Seq<Effect> {
    match action {
        ActionView::Connect { id, .. } => seq![Effect::Connect { id }],
        ActionView::Submit { call, .. } => seq![Effect::Submit { id: at.id, call }],
        _ => Seq::<Effect>::empty(),
    }
}

/// A run as far as it has come.
pub struct Run {
    /// Where the run stands.
    pub at: Progress,
    /// The events that the driver took, in order.
    pub accepted: Seq<EventView>,
    /// The actions that the driver asked for: the first one, and then the
    /// answer to each accepted event.
    pub actions: Seq<ActionView>,
    /// The effects of those actions.
    pub effects: Seq<Effect>,
}

/// The run of `plan` to which the caller reports `events`, in order. An
/// event that the driver does not wait for is passed over.
pub open spec fn run(plan: BatchPlan, account: AccountId, events: Seq<EventView>) -> Run
    decreases events.len(),
{
    if events.len() == 0 {
        let first = first_move(plan);
        Run {
            at: first.next,
            accepted: Seq::<EventView>::empty(),
            actions: seq![first.step.action],
            effects: effect_of(first.next, first.step.action),
        }
    } else {
        let before = run(plan, account, events.drop_last());
        match step_model(plan, account, before.at, events.last()) {
            Some(moved) => Run {
                at: moved.next,
                accepted: before.accepted.push(events.last()),
                actions: before.actions.push(moved.step.action),
                effects: before.effects + effect_of(before.at, moved.step.action),
            },
            None => before,
        }
    }
}

/// An event that reports a success.
pub open spec fn is_success(event: EventView) -> bool {
    event is Connected || event is SequenceFetched || event is Finalized
}

/// The parachains `first` to `last`, in ascending order.
pub open spec fn identifiers(first: u32, last: u32) -> Seq<u32> {
    Seq::new((last - first + 1) as nat, |i: int| (first + i) as u32)
}

/// The parachains to which the effects connect, in order.
pub open spec fn connected(effects: Seq<Effect>) -> Seq<u32>
    decreases effects.len(),
{
    if effects.len() == 0 {
        Seq::<u32>::empty()
    } else {
        match effects.last() {
            Effect::Connect { id } => connected(effects.drop_last()).push(id),
            _ => connected(effects.drop_last()),
        }
    }
}

proof fn lemma_connected_push(effects: Seq<Effect>, effect: Effect)
    ensures
        connected(effects.push(effect)) == match effect {
            Effect::Connect { id } => connected(effects).push(id),
            _ => connected(effects),
        },
{
    assert(effects.push(effect).drop_last() =~= effects);
}

proof fn lemma_first_load(plan: BatchPlan, id: u32, done: Option<LoadKind>)
    ensures
        match plan.next_kind(done) {
            Some(kind) => loads_after(plan, id, done) == seq![
                Effect::Submit { id, call: plan.call(kind) },
            ] + loads_after(plan, id, Some(kind)) && plan.value(kind) is Some,
            None => loads_after(plan, id, done) == Seq::<Effect>::empty(),
        },
{
    match plan.next_kind(done) {
        Some(kind) => {
            assert(loads_after(plan, id, done) =~= seq![
                Effect::Submit { id, call: plan.call(kind) },
            ] + loads_after(plan, id, Some(kind)));
        },
        None => {
            assert(loads_after(plan, id, done) =~= Seq::<Effect>::empty());
        },
    }
}

/// A move keeps the run on its plan.
proof fn lemma_move_stays_on_plan(
    plan: BatchPlan,
    account: AccountId,
    at: Progress,
    event: EventView,
)
    requires
        progress_wf(plan, at),
        step_model(plan, account, at, event) is Some,
    ensures
        progress_wf(plan, step_model(plan, account, at, event).unwrap().next),
        at.stage != Stage::Finished,
{
    lemma_first_load(plan, at.id, None);
    lemma_first_load(plan, at.id, Some(LoadKind::Storage));
    lemma_first_load(plan, at.id, Some(LoadKind::Compute));
}

proof fn lemma_leave_advances(plan: BatchPlan, at: Progress, id: u32, said: Seq<NoticeView>)
    requires
        plan.wf(),
        plan.from <= id <= plan.to,
    ensures
        ({
            let moved = leave_identifier(plan, id, said);
            planned_from(plan, id + 1) == effect_of(at, moved.step.action) + remaining(
                plan,
                moved.next,
            )
        }),
{
    let moved = leave_identifier(plan, id, said);
    if id < plan.to {
        let next = (id + 1) as u32;
        assert(planned_from(plan, id + 1) == work_on(plan, next) + planned_from(plan, id + 2));
        assert(effect_of(at, moved.step.action) == seq![Effect::Connect { id: next }]);
        assert(remaining(plan, moved.next) == loads_after(plan, next, None) + planned_from(
            plan,
            next + 1,
        ));
        assert(planned_from(plan, id + 1) =~= effect_of(at, moved.step.action) + remaining(
            plan,
            moved.next,
        ));
    } else {
        assert(planned_from(plan, id + 1) =~= Seq::<Effect>::empty());
        assert(effect_of(at, moved.step.action) + remaining(plan, moved.next) =~= Seq::<
            Effect,
        >::empty());
    }
}

proof fn lemma_continue_advances(
    plan: BatchPlan,
    account: AccountId,
    at: Progress,
    id: u32,
    done: Option<LoadKind>,
    said: Seq<NoticeView>,
)
    requires
        plan.wf(),
        plan.from <= id <= plan.to,
    ensures
        ({
            let moved = continue_identifier(plan, account, id, done, said);
            loads_after(plan, id, done) + planned_from(plan, id + 1) == effect_of(
                at,
                moved.step.action,
            ) + remaining(plan, moved.next)
        }),
{
    let moved = continue_identifier(plan, account, id, done, said);
    lemma_first_load(plan, id, done);
    match plan.next_kind(done) {
        Some(kind) => {
            assert(effect_of(at, moved.step.action) == Seq::<Effect>::empty());
            assert(moved.next == Progress { id, stage: Stage::FetchingSequence(kind) });
            assert(loads_after(plan, id, done) + planned_from(plan, id + 1) =~= effect_of(
                at,
                moved.step.action,
            ) + remaining(plan, moved.next));
        },
        None => {
            lemma_leave_advances(plan, at, id, said);
            assert(loads_after(plan, id, done) + planned_from(plan, id + 1) =~= planned_from(
                plan,
                id + 1,
            ));
        },
    }
}

/// A move after a success does the first piece of the remaining work.
proof fn lemma_success_advances(
    plan: BatchPlan,
    account: AccountId,
    at: Progress,
    event: EventView,
)
    requires
        progress_wf(plan, at),
        is_success(event),
        step_model(plan, account, at, event) is Some,
    ensures
        ({
            let moved = step_model(plan, account, at, event).unwrap();
            remaining(plan, at) == effect_of(at, moved.step.action) + remaining(plan, moved.next)
        }),
{
    let moved = step_model(plan, account, at, event).unwrap();
    match at.stage {
        Stage::Connecting => {
            lemma_continue_advances(plan, account, at, at.id, None, Seq::<NoticeView>::empty());
        },
        Stage::FetchingSequence(kind) => {
            assert(effect_of(at, moved.step.action) == seq![
                Effect::Submit { id: at.id, call: plan.call(kind) },
            ]);
            assert(remaining(plan, at) =~= effect_of(at, moved.step.action) + remaining(
                plan,
                moved.next,
            ));
        },
        Stage::AwaitingFinality(kind) => match event {
            EventView::Finalized(block) => {
                lemma_continue_advances(
                    plan,
                    account,
                    at,
                    at.id,
                    Some(kind),
                    seq![NoticeView::Included(block)],
                );
            },
            _ => {},
        },
        Stage::Finished => {},
    }
}

/// At every point of a run the driver stands on a parachain of the plan,
/// and it has answered each event that it took with one action.
pub proof fn lemma_run_stays_on_plan(plan: BatchPlan, account: AccountId, events: Seq<EventView>)
    requires
        plan.wf(),
    ensures
        progress_wf(plan, run(plan, account, events).at),
        run(plan, account, events).actions.len() == run(plan, account, events).accepted.len() + 1,
    decreases events.len(),
{
    if events.len() > 0 {
        lemma_run_stays_on_plan(plan, account, events.drop_last());
        let before = run(plan, account, events.drop_last());
        if step_model(plan, account, before.at, events.last()) is Some {
            lemma_move_stays_on_plan(plan, account, before.at, events.last());
        }
    }
}

proof fn lemma_done_and_rest_make_the_plan(
    plan: BatchPlan,
    account: AccountId,
    events: Seq<EventView>,
)
    requires
        plan.wf(),
        forall|i: int| 0 <= i < events.len() ==> is_success(#[trigger] events[i]),
    ensures
        run(plan, account, events).effects + remaining(plan, run(plan, account, events).at)
            == planned(plan),
    decreases events.len(),
{
    if events.len() == 0 {
        let first = first_move(plan);
        assert(planned(plan) == work_on(plan, plan.from) + planned_from(plan, plan.from + 1));
        assert(effect_of(first.next, first.step.action) + remaining(plan, first.next) =~= planned(
            plan,
        ));
    } else {
        let earlier = events.drop_last();
        assert forall|i: int| 0 <= i < earlier.len() implies is_success(#[trigger] earlier[i]) by {
            assert(earlier[i] == events[i]);
        }
        lemma_done_and_rest_make_the_plan(plan, account, earlier);
        lemma_run_stays_on_plan(plan, account, earlier);
        let before = run(plan, account, earlier);
        match step_model(plan, account, before.at, events.last()) {
            Some(moved) => {
                lemma_success_advances(plan, account, before.at, events.last());
                assert(run(plan, account, events).effects + remaining(plan, moved.next) =~= before.effects
                    + remaining(plan, before.at));
            },
            None => {},
        }
    }
}

/// A run in which nothing fails, once it is over, has done exactly the work
/// of its plan: it has connected to each parachain of the range once, in
/// ascending order, and after each connection it has submitted the storage
/// call where the plan has a storage value, and then the compute call where
/// the plan has a compute value.
pub proof fn lemma_successful_run_does_the_plan(
    plan: BatchPlan,
    account: AccountId,
    events: Seq<EventView>,
)
    requires
        plan.wf(),
        forall|i: int| 0 <= i < events.len() ==> is_success(#[trigger] events[i]),
        run(plan, account, events).at.stage == Stage::Finished,
    ensures
        run(plan, account, events).effects == planned(plan),
        run(plan, account, events).actions.last() == (ActionView::Finish {
            outcome: OutcomeView::Completed,
        }),
{
    lemma_done_and_rest_make_the_plan(plan, account, events);
    assert(run(plan, account, events).effects + Seq::<Effect>::empty() =~= run(
        plan,
        account,
        events,
    ).effects);
    lemma_success_ends_completed(plan, account, events);
}

proof fn lemma_success_ends_completed(plan: BatchPlan, account: AccountId, events: Seq<EventView>)
    requires
        plan.wf(),
        forall|i: int| 0 <= i < events.len() ==> is_success(#[trigger] events[i]),
    ensures
        run(plan, account, events).at.stage == Stage::Finished ==> run(
            plan,
            account,
            events,
        ).actions.last() == (ActionView::Finish { outcome: OutcomeView::Completed }),
    decreases events.len(),
{
    if events.len() > 0 {
        let earlier = events.drop_last();
        assert forall|i: int| 0 <= i < earlier.len() implies is_success(#[trigger] earlier[i]) by {
            assert(earlier[i] == events[i]);
        }
        lemma_success_ends_completed(plan, account, earlier);
        lemma_run_stays_on_plan(plan, account, earlier);
    }
}

/// Where the first failure ends the run, what a run has done at any point
/// is a beginning of the work of its plan, whatever was reported to it: a
/// failure on one parachain undoes nothing of what was done before, and
/// nothing is done after it.
pub proof fn lemma_aborting_run_does_a_beginning(
    plan: BatchPlan,
    account: AccountId,
    events: Seq<EventView>,
)
    requires
        plan.wf(),
        plan.policy == FailurePolicy::AbortRun,
    ensures
        run(plan, account, events).effects.is_prefix_of(planned(plan)),
        run(plan, account, events).at.stage != Stage::Finished ==> run(
            plan,
            account,
            events,
        ).effects + remaining(plan, run(plan, account, events).at) == planned(plan),
    decreases events.len(),
{
    if events.len() == 0 {
        let first = first_move(plan);
        assert(planned(plan) == work_on(plan, plan.from) + planned_from(plan, plan.from + 1));
        assert(effect_of(first.next, first.step.action) + remaining(plan, first.next) =~= planned(
            plan,
        ));
    } else {
        let earlier = events.drop_last();
        lemma_aborting_run_does_a_beginning(plan, account, earlier);
        lemma_run_stays_on_plan(plan, account, earlier);
        let before = run(plan, account, earlier);
        match step_model(plan, account, before.at, events.last()) {
            Some(moved) => {
                lemma_move_stays_on_plan(plan, account, before.at, events.last());
                if is_success(events.last()) {
                    lemma_success_advances(plan, account, before.at, events.last());
                    assert(run(plan, account, events).effects + remaining(plan, moved.next)
                        =~= before.effects + remaining(plan, before.at));
                } else {
                    assert(run(plan, account, events).effects =~= before.effects);
                }
            },
            None => {},
        }
    }
}

/// Whatever is reported to a run, and whatever its policy: it connects to
/// the parachains of its plan in ascending order, to none twice, and it
/// leaves none out up to the one it stands on.
pub proof fn lemma_connects_in_order(plan: BatchPlan, account: AccountId, events: Seq<EventView>)
    requires
        plan.wf(),
    ensures
        connected(run(plan, account, events).effects) == identifiers(
            plan.from,
            run(plan, account, events).at.id,
        ),
    decreases events.len(),
{
    lemma_run_stays_on_plan(plan, account, events);
    let now = run(plan, account, events);
    if events.len() == 0 {
        lemma_connected_push(Seq::<Effect>::empty(), Effect::Connect { id: plan.from });
        assert(now.effects =~= Seq::<Effect>::empty().push(Effect::Connect { id: plan.from }));
        assert(connected(now.effects) =~= identifiers(plan.from, plan.from));
    } else {
        let earlier = events.drop_last();
        lemma_connects_in_order(plan, account, earlier);
        lemma_run_stays_on_plan(plan, account, earlier);
        let before = run(plan, account, earlier);
        match step_model(plan, account, before.at, events.last()) {
            Some(moved) => {
                let added = effect_of(before.at, moved.step.action);
                if added.len() == 0 {
                    assert(now.effects =~= before.effects);
                } else {
                    assert(now.effects =~= before.effects.push(added[0]));
                    lemma_connected_push(before.effects, added[0]);
                    assert(connected(now.effects) =~= identifiers(plan.from, now.at.id));
                }
            },
            None => {},
        }
    }
}

/// A run that is over has dealt with every parachain of its plan, unless a
/// failure ended it: it then stands on the last parachain of the range.
pub proof fn lemma_finished_run_reached_the_end(
    plan: BatchPlan,
    account: AccountId,
    events: Seq<EventView>,
)
    requires
        plan.wf(),
        run(plan, account, events).at.stage == Stage::Finished,
    ensures
        run(plan, account, events).actions.last() is Finish,
        run(plan, account, events).actions.last() == (ActionView::Finish {
            outcome: OutcomeView::Completed,
        }) ==> run(plan, account, events).at.id == plan.to,
        plan.policy == FailurePolicy::SkipIdentifier ==> run(plan, account, events).actions.last()
            == (ActionView::Finish { outcome: OutcomeView::Completed }),
    decreases events.len(),
{
    if events.len() > 0 {
        let earlier = events.drop_last();
        lemma_run_stays_on_plan(plan, account, earlier);
        let before = run(plan, account, earlier);
        match step_model(plan, account, before.at, events.last()) {
            Some(moved) => {},
            None => {
                lemma_finished_run_reached_the_end(plan, account, earlier);
            },
        }
    }
}

/// Each submission has a sequence number of its own: the driver asks for a
/// submission only in answer to a sequence number that has just arrived,
/// the action before it was the query for that number and for the account
/// of the run, and the submission carries the number that arrived and that
/// account. The driver never asks for a sequence number twice in a row, and
/// it answers every sequence number with a submission.
pub proof fn lemma_each_submission_has_its_fetch(
    plan: BatchPlan,
    account: AccountId,
    events: Seq<EventView>,
    i: int,
)
    requires
        plan.wf(),
        0 <= i < run(plan, account, events).accepted.len(),
    ensures
        i + 1 < run(plan, account, events).actions.len(),
        match run(plan, account, events).actions[i + 1] {
            ActionView::Submit { sequence, account: signer, .. } => {
                &&& run(plan, account, events).actions[i] == (ActionView::FetchSequence {
                    query: sequence_query_of(account),
                })
                &&& run(plan, account, events).accepted[i] == EventView::SequenceFetched(sequence)
                &&& signer == account
            },
            ActionView::FetchSequence { .. } => !(run(plan, account, events).actions[i]
                is FetchSequence),
            _ => true,
        },
        run(plan, account, events).accepted[i] is SequenceFetched ==> run(
            plan,
            account,
            events,
        ).actions[i + 1] is Submit,
    decreases events.len(),
{
    lemma_run_stays_on_plan(plan, account, events);
    lemma_stage_tells_last_action(plan, account, events);
    if events.len() > 0 {
        let earlier = events.drop_last();
        lemma_run_stays_on_plan(plan, account, earlier);
        lemma_stage_tells_last_action(plan, account, earlier);
        let before = run(plan, account, earlier);
        match step_model(plan, account, before.at, events.last()) {
            Some(moved) => {
                if i < before.accepted.len() {
                    lemma_each_submission_has_its_fetch(plan, account, earlier, i);
                }
            },
            None => {
                lemma_each_submission_has_its_fetch(plan, account, earlier, i);
            },
        }
    }
}

proof fn lemma_stage_tells_last_action(plan: BatchPlan, account: AccountId, events: Seq<EventView>)
    requires
        plan.wf(),
    ensures
        run(plan, account, events).actions.len() > 0,
        run(plan, account, events).actions.last() is FetchSequence <==> run(
            plan,
            account,
            events,
        ).at.stage is FetchingSequence,
        run(plan, account, events).actions.last() is FetchSequence ==> run(
            plan,
            account,
            events,
        ).actions.last() == (ActionView::FetchSequence { query: sequence_query_of(account) }),
    decreases events.len(),
{
    if events.len() > 0 {
        let earlier = events.drop_last();
        lemma_stage_tells_last_action(plan, account, earlier);
        lemma_run_stays_on_plan(plan, account, earlier);
    }
}

/// A plan whose range holds one parachain holds the work on that parachain
/// and no other: the range includes both of its ends.
pub proof fn lemma_single_identifier(plan: BatchPlan)
    requires
        plan.wf(),
        plan.from == plan.to,
    ensures
        planned(plan) == work_on(plan, plan.from),
        identifiers(plan.from, plan.to) == seq![plan.from],
{
    assert(planned_from(plan, plan.from + 1) =~= Seq::<Effect>::empty());
    assert(planned(plan) =~= work_on(plan, plan.from));
    assert(identifiers(plan.from, plan.to) =~= seq![plan.from]);
}

/// The sequence numbers that the events report, in order.
pub open spec fn fetched_numbers(events: Seq<EventView>) -> Seq<u32>
    decreases events.len(),
{
    if events.len() == 0 {
        Seq::<u32>::empty()
    } else {
        match events.last() {
            EventView::SequenceFetched(sequence) => fetched_numbers(events.drop_last()).push(
                sequence,
            ),
            _ => fetched_numbers(events.drop_last()),
        }
    }
}

/// The sequence numbers that the submissions among the actions carry, in
/// order.
pub open spec fn submitted_numbers(actions: Seq<ActionView>) -> Seq<u32>
    decreases actions.len(),
{
    if actions.len() == 0 {
        Seq::<u32>::empty()
    } else {
        match actions.last() {
            ActionView::Submit { sequence, .. } => submitted_numbers(actions.drop_last()).push(
                sequence,
            ),
            _ => submitted_numbers(actions.drop_last()),
        }
    }
}

/// The submissions of a run carry the sequence numbers that the nodes gave,
/// each number once and in the order in which the numbers came: none is
/// kept for a later submission, and none is used twice unless a node gave
/// it twice.
pub proof fn lemma_submissions_use_fetched_numbers(
    plan: BatchPlan,
    account: AccountId,
    events: Seq<EventView>,
)
    requires
        plan.wf(),
    ensures
        submitted_numbers(run(plan, account, events).actions) == fetched_numbers(
            run(plan, account, events).accepted,
        ),
    decreases events.len(),
{
    let now = run(plan, account, events);
    if events.len() == 0 {
        assert(now.actions.drop_last() =~= Seq::<ActionView>::empty());
        assert(submitted_numbers(now.actions.drop_last()) =~= Seq::<u32>::empty());
    } else {
        let earlier = events.drop_last();
        lemma_submissions_use_fetched_numbers(plan, account, earlier);
        lemma_run_stays_on_plan(plan, account, earlier);
        let before = run(plan, account, earlier);
        match step_model(plan, account, before.at, events.last()) {
            Some(moved) => {
                assert(now.actions.drop_last() =~= before.actions);
                assert(now.accepted.drop_last() =~= before.accepted);
            },
            None => {},
        }
    }
}

/// A run that ends complete has connected to every parachain of its plan,
/// once each and in ascending order. Where a failure only ends the work on
/// its own parachain, every run that ends does so: no failure keeps the run
/// from a later parachain.
pub proof fn lemma_complete_run_visits_all(
    plan: BatchPlan,
    account: AccountId,
    events: Seq<EventView>,
)
    requires
        plan.wf(),
        run(plan, account, events).at.stage == Stage::Finished,
        plan.policy == FailurePolicy::SkipIdentifier || run(plan, account, events).actions.last()
            == (ActionView::Finish { outcome: OutcomeView::Completed }),
    ensures
        run(plan, account, events).actions.last() == (ActionView::Finish {
            outcome: OutcomeView::Completed,
        }),
        connected(run(plan, account, events).effects) == identifiers(plan.from, plan.to),
{
    lemma_finished_run_reached_the_end(plan, account, events);
    lemma_connects_in_order(plan, account, events);
}

} // verus!
