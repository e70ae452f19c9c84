//! The batch run as a machine of steps. The driver decides; its caller does
//! the work on the network. Each answer of the driver names the one thing to
//! do next, and the caller reports how that went with the next event.

use crate::account::{sequence_query, sequence_query_of, AccountId, BlockId, SequenceQuery, SequenceQueryView};
use crate::call::{build_call, load_call, AdministrativeCall, LoadKind};
use crate::endpoint::{
    address, address_text, addressable, is_addressable, ConfigurationError, RelayChain, MAX_PORT,
};
use crate::notice::{ErrorKind, Notice, NoticeView, RunError, RunErrorView};
use vstd::prelude::*;

verus! {

/// What a failure does to the rest of a run.
#[derive(Clone, Copy, Debug, PartialEq, Eq, Structural)]
pub enum FailurePolicy {
    /// The first failure ends the run.
    AbortRun,
    /// A failure ends the work on its parachain; the run goes on with the
    /// next one.
    SkipIdentifier,
}

/// What a run is to do: the parachains `from` to `to`, both included, in
/// ascending order, and for each of them the loads to set.
#[derive(Clone, Copy, Debug, PartialEq, Eq)]
pub struct BatchPlan {
    pub relay: RelayChain,
    pub from: u32,
    pub to: u32,
    /// The new storage load; `None` leaves the storage load as it is.
    pub storage: Option<u64>,
    /// The new compute load; `None` leaves the compute load as it is.
    pub compute: Option<u64>,
    pub policy: FailurePolicy,
}

impl BatchPlan {
    /// Why the plan cannot be run, if it cannot: its range is empty, or one
    /// of its parachains has no address, of which the first is named.
    pub open spec fn rejection(self) -> Option<ConfigurationError> {
        if self.from > self.to {
            Some(ConfigurationError::EmptyRange { from: self.from, to: self.to })
        } else if !addressable(self.relay, self.to) {
            Some(
                ConfigurationError::PortOutOfRange {
                    id: if self.from > MAX_PORT {
                        self.from
                    } else {
                        (MAX_PORT + 1) as u32
                    },
                },
            )
        } else {
            None
        }
    }

    /// A plan that can be run.
    pub open spec fn wf(self) -> bool {
        self.rejection() is None
    }

    /// The value that the plan gives the load of `kind`.
    pub open spec fn value(self, kind: LoadKind) -> Option<u64> {
        match kind {
            LoadKind::Storage => self.storage,
            LoadKind::Compute => self.compute,
        }
    }

    /// The call that the plan submits for the load of `kind`.
    pub open spec fn call(self, kind: LoadKind) -> AdministrativeCall
        recommends
            self.value(kind) is Some,
    {
        load_call(kind, self.value(kind).unwrap())
    }

    /// The load that is set next on a parachain, once the load `done` has
    /// been set (`None`: nothing yet). Storage comes before compute.
    pub open spec fn next_kind(self, done: Option<LoadKind>) -> Option<LoadKind> {
        match done {
            None => if self.storage is Some {
                Some(LoadKind::Storage)
            } else if self.compute is Some {
                Some(LoadKind::Compute)
            } else {
                None
            },
            Some(LoadKind::Storage) => if self.compute is Some {
                Some(LoadKind::Compute)
            } else {
                None
            },
            Some(LoadKind::Compute) => None,
        }
    }

    /// Checks the plan.
    pub fn check(&self) -> (checked: Result<(), ConfigurationError>)
        ensures
            match checked {
                Ok(_) => self.wf(),
                Err(error) => self.rejection() == Some(error),
            },
    {
        if self.from > self.to {
            Err(ConfigurationError::EmptyRange { from: self.from, to: self.to })
        } else if !is_addressable(self.relay, self.to) {
            let id: u32 = if self.from > MAX_PORT {
                self.from
            } else {
                MAX_PORT + 1
            };
            Err(ConfigurationError::PortOutOfRange { id })
        } else {
            Ok(())
        }
    }

    fn pick_next(&self, done: Option<LoadKind>) -> (next: Option<(LoadKind, u64)>)
        ensures
            match next {
                Some((kind, value)) => self.next_kind(done) == Some(kind) && self.value(kind)
                    == Some(value),
                None => self.next_kind(done) is None,
            },
    {
        match done {
            None => match self.storage {
                Some(value) => Some((LoadKind::Storage, value)),
                None => match self.compute {
                    Some(value) => Some((LoadKind::Compute, value)),
                    None => None,
                },
            },
            Some(LoadKind::Storage) => match self.compute {
                Some(value) => Some((LoadKind::Compute, value)),
                None => None,
            },
            Some(LoadKind::Compute) => None,
        }
    }
}

/// What the driver waits for.
#[derive(Clone, Copy, Debug, PartialEq, Eq, Structural)]
pub enum Stage {
    /// The connection to the current parachain's node is being opened.
    Connecting,
    /// The sequence number for the call of this kind has been asked for.
    FetchingSequence(LoadKind),
    /// The call of this kind has been submitted and is not yet final.
    AwaitingFinality(LoadKind),
    /// The run is over.
    Finished,
}

/// Where a run stands: the parachain it works on, and what it waits for.
#[derive(Clone, Copy, Debug, PartialEq, Eq, Structural)]
pub struct Progress {
    pub id: u32,
    pub stage: Stage,
}

/// A failure, and the parachain on which it occurred.
#[derive(Debug, PartialEq, Eq)]
pub struct Failure {
    pub id: u32,
    pub error: RunError,
}

/// What a failure holds.
pub struct FailureView {
    pub id: u32,
    pub error: RunErrorView,
}

impl View for Failure {
    type V = FailureView;

    open spec fn view(&self) -> FailureView {
        FailureView { id: self.id, error: self.error@ }
    }
}

/// How a run ended.
#[derive(Debug, PartialEq, Eq)]
pub enum Outcome {
    /// The last parachain of the plan has been dealt with.
    Completed,
    /// A failure ended the run before that.
    Aborted(Failure),
}

/// What an outcome holds.
pub enum OutcomeView {
    Completed,
    Aborted(FailureView),
}

impl View for Outcome {
    type V = OutcomeView;

    open spec fn view(&self) -> OutcomeView {
        match self {
            Outcome::Completed => OutcomeView::Completed,
            Outcome::Aborted(failure) => OutcomeView::Aborted(failure@),
        }
    }
}

/// The one thing that the caller is to do next.
#[derive(Debug, PartialEq, Eq)]
pub enum Action {
    /// Open a connection to the node of parachain `id` at `address`; the
    /// connection to the parachain before it is no longer needed.
    Connect { id: u32, address: String },
    /// Ask the connected node for the account's next sequence number.
    FetchSequence { query: SequenceQuery },
    /// Sign `call` for `account` with `sequence`, submit it to the
    /// connected node, and wait until it is final or has failed.
    Submit { call: AdministrativeCall, sequence: u32, account: AccountId },
    /// Stop: the run is over.
    Finish { outcome: Outcome },
}

/// What an action holds.
pub enum ActionView {
    Connect { id: u32, address: Seq<char> },
    FetchSequence { query: SequenceQueryView },
    Submit { call: AdministrativeCall, sequence: u32, account: AccountId },
    Finish { outcome: OutcomeView },
}

impl View for Action {
    type V = ActionView;

    open spec fn view(&self) -> ActionView {
        match self {
            Action::Connect { id, address } => ActionView::Connect { id: *id, address: address@ },
            Action::FetchSequence { query } => ActionView::FetchSequence { query: query@ },
            Action::Submit { call, sequence, account } => ActionView::Submit {
                call: *call,
                sequence: *sequence,
                account: *account,
            },
            Action::Finish { outcome } => ActionView::Finish { outcome: outcome@ },
        }
    }
}

/// How the action that the driver asked for went.
#[derive(Debug, PartialEq, Eq)]
pub enum Event {
    /// The connection is open.
    Connected,
    /// The connection could not be opened.
    ConnectionFailed(String),
    /// The node gave the account's next sequence number.
    SequenceFetched(u32),
    /// The query for the sequence number failed.
    SequenceFailed(String),
    /// The call took effect in this finalized block.
    Finalized(BlockId),
    /// The call was rejected, reverted or dropped; the text is the last
    /// status that was seen of it.
    SubmissionFailed(String),
}

/// What an event holds.
pub enum EventView {
    Connected,
    ConnectionFailed(Seq<char>),
    SequenceFetched(u32),
    SequenceFailed(Seq<char>),
    Finalized(BlockId),
    SubmissionFailed(Seq<char>),
}

impl View for Event {
    type V = EventView;

    open spec fn view(&self) -> EventView {
        match self {
            Event::Connected => EventView::Connected,
            Event::ConnectionFailed(detail) => EventView::ConnectionFailed(detail@),
            Event::SequenceFetched(sequence) => EventView::SequenceFetched(*sequence),
            Event::SequenceFailed(detail) => EventView::SequenceFailed(detail@),
            Event::Finalized(block) => EventView::Finalized(*block),
            Event::SubmissionFailed(detail) => EventView::SubmissionFailed(detail@),
        }
    }
}

/// An answer of the driver: the notices to show, in order, and then the
/// action to take.
#[derive(Debug, PartialEq, Eq)]
pub struct Step {
    pub notices: Vec<Notice>,
    pub action: Action,
}

/// What an answer holds.
pub struct StepView {
    pub notices: Seq<NoticeView>,
    pub action: ActionView,
}

/// The notices of a list, each by what it holds.
pub open spec fn notice_views(notices: Seq<Notice>) -> Seq<NoticeView> {
    notices.map_values(|notice: Notice| notice@)
}

impl View for Step {
    type V = StepView;

    open spec fn view(&self) -> StepView {
        StepView { notices: notice_views(self.notices@), action: self.action@ }
    }
}

/// A move of the machine: where the run stands after it, and the answer
/// that the caller gets.
pub struct Transition {
    pub next: Progress,
    pub step: StepView,
}

/// Work on parachain `id` begins: it is announced, and its node is to be
/// connected. `said` holds the notices that are due before.
pub open spec fn open_identifier(plan: BatchPlan, id: u32, said: Seq<NoticeView>) -> Transition {
    Transition {
        next: Progress { id, stage: Stage::Connecting },
        step: StepView {
            notices: said.push(NoticeView::Updating { relay: plan.relay, id }).push(
                NoticeView::Connecting,
            ),
            action: ActionView::Connect { id, address: address(plan.relay, id) },
        },
    }
}

/// Work on parachain `id` is over: the next parachain follows, and after
/// the last one the run is complete.
pub open spec fn leave_identifier(plan: BatchPlan, id: u32, said: Seq<NoticeView>) -> Transition {
    if id < plan.to {
        open_identifier(plan, (id + 1) as u32, said)
    } else {
        Transition {
            next: Progress { id, stage: Stage::Finished },
            step: StepView {
                notices: said,
                action: ActionView::Finish { outcome: OutcomeView::Completed },
            },
        }
    }
}

/// On parachain `id` the load `done` has been set (`None`: none yet). The
/// next load of the plan is announced and its sequence number asked for;
/// where no load is left, the work on the parachain is over.
pub open spec fn continue_identifier(
    plan: BatchPlan,
    account: AccountId,
    id: u32,
    done: Option<LoadKind>,
    said: Seq<NoticeView>,
) -> Transition {
    match plan.next_kind(done) {
        Some(kind) => Transition {
            next: Progress { id, stage: Stage::FetchingSequence(kind) },
            step: StepView {
                notices: said.push(NoticeView::Submitting(plan.call(kind))),
                action: ActionView::FetchSequence { query: sequence_query_of(account) },
            },
        },
        None => leave_identifier(plan, id, said),
    }
}

/// A step on parachain `id` has failed. The failure is shown; then the run
/// ends with it, or goes on with the next parachain, as the policy says.
pub open spec fn fail_identifier(plan: BatchPlan, id: u32, error: RunErrorView) -> Transition {
    match plan.policy {
        FailurePolicy::AbortRun => Transition {
            next: Progress { id, stage: Stage::Finished },
            step: StepView {
                notices: seq![NoticeView::Failed(error)],
                action: ActionView::Finish {
                    outcome: OutcomeView::Aborted(FailureView { id, error }),
                },
            },
        },
        FailurePolicy::SkipIdentifier => leave_identifier(
            plan,
            id,
            seq![NoticeView::Failed(error)],
        ),
    }
}

/// The first move of a run: work on the first parachain begins.
pub open spec fn first_move(plan: BatchPlan) -> Transition {
    open_identifier(plan, plan.from, Seq::<NoticeView>::empty())
}

/// The move that an event causes, or `None` where the event is not one
/// that the run waits for at this stage.
///
/// An open connection starts the first load of the plan. A sequence number
/// is used at once, for the call it was fetched for and for the account it
/// was fetched for, and it is not kept. A finalized
/// call is reported, and the next load or the next parachain follows. A
/// failure of any step is handled as the policy says.
pub open spec fn step_model(
    plan: BatchPlan,
    account: AccountId,
    at: Progress,
    event: EventView,
) -> Option<Transition> {
    match (at.stage, event) {
        (Stage::Connecting, EventView::Connected) => Some(
            continue_identifier(plan, account, at.id, None, Seq::<NoticeView>::empty()),
        ),
        (Stage::Connecting, EventView::ConnectionFailed(detail)) => Some(
            fail_identifier(plan, at.id, RunErrorView { kind: ErrorKind::Connection, detail }),
        ),
        (Stage::FetchingSequence(kind), EventView::SequenceFetched(sequence)) => Some(
            Transition {
                next: Progress { id: at.id, stage: Stage::AwaitingFinality(kind) },
                step: StepView {
                    notices: Seq::<NoticeView>::empty(),
                    action: ActionView::Submit { call: plan.call(kind), sequence, account },
                },
            },
        ),
        (Stage::FetchingSequence(_), EventView::SequenceFailed(detail)) => Some(
            fail_identifier(plan, at.id, RunErrorView { kind: ErrorKind::Rpc, detail }),
        ),
        (Stage::AwaitingFinality(kind), EventView::Finalized(block)) => Some(
            continue_identifier(
                plan,
                account,
                at.id,
                Some(kind),
                seq![NoticeView::Included(block)],
            ),
        ),
        (Stage::AwaitingFinality(_), EventView::SubmissionFailed(detail)) => Some(
            fail_identifier(plan, at.id, RunErrorView { kind: ErrorKind::Submission, detail }),
        ),
        _ => None,
    }
}

/// Whether a run of `plan` can stand at `at`: on a parachain of the plan,
/// and waiting for nothing but a call that the plan holds.
pub open spec fn progress_wf(plan: BatchPlan, at: Progress) -> bool {
    &&& plan.wf()
    &&& plan.from <= at.id <= plan.to
    &&& match at.stage {
        Stage::FetchingSequence(kind) | Stage::AwaitingFinality(kind) => plan.value(kind) is Some,
        _ => true,
    }
}

proof fn lemma_push_notice(notices: Seq<Notice>, notice: Notice)
    ensures
        notice_views(notices.push(notice)) == notice_views(notices).push(notice@),
{
    assert(notice_views(notices.push(notice)) =~= notice_views(notices).push(notice@));
}

fn say(notices: &mut Vec<Notice>, notice: Notice)
    ensures
        notice_views(final(notices)@) == notice_views(old(notices)@).push(notice@),
{
    proof {
        lemma_push_notice(notices@, notice);
    }
    notices.push(notice);
}

fn no_notices() -> (notices: Vec<Notice>)
    ensures
        notice_views(notices@) == Seq::<NoticeView>::empty(),
{
    let notices: Vec<Notice> = Vec::new();
    assert(notice_views(notices@) =~= Seq::<NoticeView>::empty());
    notices
}

fn open_next(plan: &BatchPlan, id: u32, said: Vec<Notice>) -> (moved: (Progress, Step))
    requires
        plan.wf(),
        plan.from <= id <= plan.to,
    ensures
        moved.0 == open_identifier(*plan, id, notice_views(said@)).next,
        moved.1@ == open_identifier(*plan, id, notice_views(said@)).step,
        progress_wf(*plan, moved.0),
{
    let mut notices = said;
    say(&mut notices, Notice::Updating { relay: plan.relay, id });
    say(&mut notices, Notice::Connecting);
    let address = address_text(plan.relay, id);
    (Progress { id, stage: Stage::Connecting }, Step { notices, action: Action::Connect { id, address } })
}

fn leave(plan: &BatchPlan, id: u32, said: Vec<Notice>) -> (moved: (Progress, Step))
    requires
        plan.wf(),
        plan.from <= id <= plan.to,
    ensures
        moved.0 == leave_identifier(*plan, id, notice_views(said@)).next,
        moved.1@ == leave_identifier(*plan, id, notice_views(said@)).step,
        progress_wf(*plan, moved.0),
{
    if id < plan.to {
        open_next(plan, id + 1, said)
    } else {
        (
            Progress { id, stage: Stage::Finished },
            Step { notices: said, action: Action::Finish { outcome: Outcome::Completed } },
        )
    }
}

fn proceed(
    plan: &BatchPlan,
    account: &AccountId,
    id: u32,
    done: Option<LoadKind>,
    said: Vec<Notice>,
) -> (moved: (Progress, Step))
    requires
        plan.wf(),
        plan.from <= id <= plan.to,
    ensures
        moved.0 == continue_identifier(*plan, *account, id, done, notice_views(said@)).next,
        moved.1@ == continue_identifier(*plan, *account, id, done, notice_views(said@)).step,
        progress_wf(*plan, moved.0),
{
    match plan.pick_next(done) {
        Some((kind, value)) => {
            let mut notices = said;
            say(&mut notices, Notice::Submitting(build_call(kind, value)));
            (
                Progress { id, stage: Stage::FetchingSequence(kind) },
                Step { notices, action: Action::FetchSequence { query: sequence_query(account) } },
            )
        },
        None => leave(plan, id, said),
    }
}

fn fail(plan: &BatchPlan, id: u32, error: RunError) -> (moved: (Progress, Step))
    requires
        plan.wf(),
        plan.from <= id <= plan.to,
    ensures
        moved.0 == fail_identifier(*plan, id, error@).next,
        moved.1@ == fail_identifier(*plan, id, error@).step,
        progress_wf(*plan, moved.0),
{
    let mut notices = no_notices();
    say(&mut notices, Notice::Failed(error.duplicate()));
    assert(notice_views(notices@) =~= seq![NoticeView::Failed(error@)]);
    match plan.policy {
        FailurePolicy::AbortRun => (
            Progress { id, stage: Stage::Finished },
            Step {
                notices,
                action: Action::Finish { outcome: Outcome::Aborted(Failure { id, error }) },
            },
        ),
        FailurePolicy::SkipIdentifier => leave(plan, id, notices),
    }
}

/// The driver of one run.
pub struct Driver {
    plan: BatchPlan,
    account: AccountId,
    at: Progress,
}

impl Driver {
    /// The plan that the run follows.
    pub closed spec fn plan(&self) -> BatchPlan {
        self.plan
    }

    /// The account for which the calls are signed.
    pub closed spec fn account(&self) -> AccountId {
        self.account
    }

    /// Where the run stands.
    pub closed spec fn progress(&self) -> Progress {
        self.at
    }

    /// What holds of every driver: its run stands on a parachain of its
    /// plan, and waits for nothing but a call that the plan holds.
    pub open spec fn wf(&self) -> bool {
        progress_wf(self.plan(), self.progress())
    }

    #[verifier::type_invariant]
    spec fn on_plan(self) -> bool {
        progress_wf(self.plan, self.at)
    }

    /// Starts a run of `plan` for `account`, and says what to do first. A
    /// plan that cannot be run is refused, and nothing is to be done.
    pub fn begin(plan: BatchPlan, account: AccountId) -> (started: Result<
        (Driver, Step),
        ConfigurationError,
    >)
        ensures
            match started {
                Ok((driver, step)) => {
                    &&& plan.wf()
                    &&& driver.wf()
                    &&& driver.plan() == plan
                    &&& driver.account() == account
                    &&& driver.progress() == first_move(plan).next
                    &&& step@ == first_move(plan).step
                },
                Err(error) => plan.rejection() == Some(error),
            },
    {
        match plan.check() {
            Err(error) => Err(error),
            Ok(_) => {
                let (at, step) = open_next(&plan, plan.from, no_notices());
                Ok((Driver { plan, account, at }, step))
            },
        }
    }

    /// Takes the report of how the last action went, and says what to do
    /// next. An event that the run does not wait for changes nothing and
    /// gets no answer.
    pub fn step(&mut self, event: Event) -> (answer: Option<Step>)
        ensures
            old(self).wf(),
            final(self).wf(),
            final(self).plan() == old(self).plan(),
            final(self).account() == old(self).account(),
            match step_model(old(self).plan(), old(self).account(), old(self).progress(), event@) {
                Some(moved) => {
                    &&& answer matches Some(step) && step@ == moved.step
                    &&& final(self).progress() == moved.next
                },
                None => answer is None && final(self).progress() == old(self).progress(),
            },
    {
        proof {
            use_type_invariant(&*self);
        }
        let id: u32 = self.at.id;
        let moved = match (self.at.stage, event) {
            (Stage::Connecting, Event::Connected) => proceed(
                &self.plan,
                &self.account,
                id,
                None,
                no_notices(),
            ),
            (Stage::Connecting, Event::ConnectionFailed(detail)) => fail(
                &self.plan,
                id,
                RunError { kind: ErrorKind::Connection, detail },
            ),
            (Stage::FetchingSequence(kind), Event::SequenceFetched(sequence)) => {
                let value: u64 = match kind {
                    LoadKind::Storage => self.plan.storage.unwrap(),
                    LoadKind::Compute => self.plan.compute.unwrap(),
                };
                (
                    Progress { id, stage: Stage::AwaitingFinality(kind) },
                    Step {
                        notices: no_notices(),
                        action: Action::Submit {
                            call: build_call(kind, value),
                            sequence,
                            account: self.account,
                        },
                    },
                )
            },
            (Stage::FetchingSequence(_), Event::SequenceFailed(detail)) => fail(
                &self.plan,
                id,
                RunError { kind: ErrorKind::Rpc, detail },
            ),
            (Stage::AwaitingFinality(kind), Event::Finalized(block)) => {
                let mut notices = no_notices();
                say(&mut notices, Notice::Included(block));
                assert(notice_views(notices@) =~= seq![NoticeView::Included(block)]);
                proceed(&self.plan, &self.account, id, Some(kind), notices)
            },
            (Stage::AwaitingFinality(_), Event::SubmissionFailed(detail)) => fail(
                &self.plan,
                id,
                RunError { kind: ErrorKind::Submission, detail },
            ),
            _ => {
                return None;
            },
        };
        self.at = moved.0;
        Some(moved.1)
    }

    /// Where the run stands.
    pub fn position(&self) -> (at: Progress)
        ensures
            at == self.progress(),
    {
        self.at
    }

    /// Whether the run is over.
    pub fn is_finished(&self) -> (over: bool)
        ensures
            over == (self.progress().stage == Stage::Finished),
    {
        match self.at.stage {
            Stage::Finished => true,
            _ => false,
        }
    }
}

} // verus!
