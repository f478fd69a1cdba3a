//! The course of one analysis under the service's concurrency limit: a
//! permit first, then one instance from each engine pool, then the analysis
//! under a time limit, then the reply and the return of the instances.
use vstd::prelude::*;

use crate::http::analyze::{
    own_reply, AnalysisError, ErrorReply, ErrorReplyView, STATUS_INTERNAL_SERVER_ERROR,
    STATUS_SERVICE_UNAVAILABLE, STATUS_UNPROCESSABLE_ENTITY,
};
use crate::text::owned;

verus! {

/// How far an analysis has come.
#[derive(Clone, Copy, Debug, PartialEq, Eq, Structural)]
pub enum Stage {
    AwaitingPermit,
    AwaitingInstances,
    Analysing,
    Finished,
}

/// What happened while the analysis waited.
pub enum ProcessEvent<A> {
    /// The concurrency limit let the analysis in.
    PermitGranted,
    /// The concurrency limit is closed.
    PermitRefused,
    /// One instance of each engine was taken from its pool.
    InstancesAcquired,
    /// The analysis ran to its end, with its result or its error message.
    AnalysisDone(Result<A, String>),
    /// The analysis stopped abnormally; its engine instances are lost.
    AnalysisPanicked,
    /// The time limit passed; the engine instances stay with the abandoned run.
    TimedOut,
}

/// What becomes of the engine instances that an analysis holds.
#[derive(Clone, Copy, Debug, PartialEq, Eq, Structural)]
pub enum PoolAction {
    /// The instances go back to their pools.
    Release,
    /// New instances are made and put in the pools in place of the lost ones.
    Replenish,
}

/// What becomes of the permit of the concurrency limit.
#[derive(Clone, Copy, Debug, PartialEq, Eq, Structural)]
pub enum Permit {
    /// The analysis holds a permit and gives it back.
    GiveBack,
    /// The analysis holds no permit.
    NotHeld,
}

/// What the client is answered.
pub enum Reply<A> {
    /// The analysis, with status 200.
    Analysis(A),
    /// An error reply.
    Failure(ErrorReply),
}

/// A reply as plain values.
pub enum ReplyView<A> {
    Analysis(A),
    Failure(ErrorReplyView),
}

impl<A> View for Reply<A> {
    type V = ReplyView<A>;

    open spec fn view(&self) -> ReplyView<A> {
        match self {
            Reply::Analysis(a) => ReplyView::Analysis(*a),
            Reply::Failure(e) => ReplyView::Failure(e@),
        }
    }
}

/// What the service does next.
pub enum ProcessAction<A> {
    /// Wait for a permit of the concurrency limit.
    AcquirePermit,
    /// Take one instance from each engine pool.
    AcquireInstances,
    /// Run the analysis, giving up after the given number of seconds.
    RunAnalysis(u64),
    /// Do with the engine instances what is said, if the analysis holds any,
    /// do with the permit what is said, and answer the client.
    Respond(Option<PoolAction>, Permit, Reply<A>),
    /// Nothing: the event does not belong to this stage.
    Wait,
}

/// An action as plain values.
pub enum ActionView<A> {
    AcquirePermit,
    AcquireInstances,
    RunAnalysis(u64),
    Respond(Option<PoolAction>, Permit, ReplyView<A>),
    Wait,
}

impl<A> View for ProcessAction<A> {
    type V = ActionView<A>;

    open spec fn view(&self) -> ActionView<A> {
        match self {
            ProcessAction::AcquirePermit => ActionView::AcquirePermit,
            ProcessAction::AcquireInstances => ActionView::AcquireInstances,
            ProcessAction::RunAnalysis(t) => ActionView::RunAnalysis(*t),
            ProcessAction::Respond(p, k, r) => ActionView::Respond(*p, *k, r@),
            ProcessAction::Wait => ActionView::Wait,
        }
    }
}

/// The next stage and action when `event` happens at `stage`, for an
/// analysis whose time limit is `timeout_secs`.
pub open spec fn process_step<A>(stage: Stage, timeout_secs: u64, event: ProcessEvent<A>) -> (
    Stage,
    ActionView<A>,
) {
    match (stage, event) {
        (Stage::AwaitingPermit, ProcessEvent::PermitGranted) => (
            Stage::AwaitingInstances,
            ActionView::AcquireInstances,
        ),
        (Stage::AwaitingPermit, ProcessEvent::PermitRefused) => (
            Stage::Finished,
            ActionView::Respond(
                None,
                Permit::NotHeld,
                ReplyView::Failure(own_reply(STATUS_SERVICE_UNAVAILABLE, "Service overloaded"@)),
            ),
        ),
        (Stage::AwaitingInstances, ProcessEvent::InstancesAcquired) => (
            Stage::Analysing,
            ActionView::RunAnalysis(timeout_secs),
        ),
        (Stage::Analysing, ProcessEvent::AnalysisDone(Ok(a))) => (
            Stage::Finished,
            ActionView::Respond(Some(PoolAction::Release), Permit::GiveBack, ReplyView::Analysis(a)),
        ),
        (Stage::Analysing, ProcessEvent::AnalysisDone(Err(message))) => (
            Stage::Finished,
            ActionView::Respond(
                Some(PoolAction::Release),
                Permit::GiveBack,
                ReplyView::Failure(own_reply(STATUS_UNPROCESSABLE_ENTITY, message@)),
            ),
        ),
        (Stage::Analysing, ProcessEvent::AnalysisPanicked) => (
            Stage::Finished,
            ActionView::Respond(
                Some(PoolAction::Replenish),
                Permit::GiveBack,
                ReplyView::Failure(
                    own_reply(STATUS_INTERNAL_SERVER_ERROR, "Internal processing error"@),
                ),
            ),
        ),
        (Stage::Analysing, ProcessEvent::TimedOut) => (
            Stage::Finished,
            ActionView::Respond(
                Some(PoolAction::Replenish),
                Permit::GiveBack,
                ReplyView::Failure(
                    own_reply(STATUS_SERVICE_UNAVAILABLE, "OCR processing timeout"@),
                ),
            ),
        ),
        _ => (stage, ActionView::Wait),
    }
}

/// The stage reached and the actions taken when `events` happen in turn,
/// starting at `stage`.
pub open spec fn process_run<A>(stage: Stage, timeout_secs: u64, events: Seq<ProcessEvent<A>>) -> (
    Stage,
    Seq<ActionView<A>>,
)
    decreases events.len(),
{
    if events.len() == 0 {
        (stage, Seq::empty())
    } else {
        let before = process_run(stage, timeout_secs, events.drop_last());
        let next = process_step(before.0, timeout_secs, events.last());
        (next.0, before.1.push(next.1))
    }
}

/// The number of replies among `actions`.
pub open spec fn replies<A>(actions: Seq<ActionView<A>>) -> nat
    decreases actions.len(),
{
    if actions.len() == 0 {
        0
    } else {
        replies(actions.drop_last()) + if actions.last() is Respond {
            1nat
        } else {
            0nat
        }
    }
}

/// The number of times `actions` take instances from the pools: each run of
/// the analysis follows the taking of one instance from each pool.
pub open spec fn instances_taken<A>(actions: Seq<ActionView<A>>) -> nat
    decreases actions.len(),
{
    if actions.len() == 0 {
        0
    } else {
        instances_taken(actions.drop_last()) + if actions.last() is RunAnalysis {
            1nat
        } else {
            0nat
        }
    }
}

/// The number of times `actions` give instances back to the pools, the same
/// ones or new ones in their place.
pub open spec fn instances_returned<A>(actions: Seq<ActionView<A>>) -> nat
    decreases actions.len(),
{
    if actions.len() == 0 {
        0
    } else {
        instances_returned(actions.drop_last()) + match actions.last() {
            ActionView::Respond(Some(_), _, _) => 1nat,
            _ => 0nat,
        }
    }
}

/// The number of instances of each pool that an analysis at `stage` holds.
pub open spec fn instances_held(stage: Stage) -> nat {
    if stage == Stage::Analysing {
        1
    } else {
        0
    }
}

/// The number of times `actions` take a permit: the instances are asked for
/// exactly when a permit has been granted.
pub open spec fn permits_taken<A>(actions: Seq<ActionView<A>>) -> nat
    decreases actions.len(),
{
    if actions.len() == 0 {
        0
    } else {
        permits_taken(actions.drop_last()) + if actions.last() is AcquireInstances {
            1nat
        } else {
            0nat
        }
    }
}

/// The number of times `actions` give a permit back.
pub open spec fn permits_returned<A>(actions: Seq<ActionView<A>>) -> nat
    decreases actions.len(),
{
    if actions.len() == 0 {
        0
    } else {
        permits_returned(actions.drop_last()) + match actions.last() {
            ActionView::Respond(_, Permit::GiveBack, _) => 1nat,
            _ => 0nat,
        }
    }
}

/// The number of permits that an analysis at `stage` holds.
pub open spec fn permits_held(stage: Stage) -> nat {
    if stage == Stage::AwaitingInstances || stage == Stage::Analysing {
        1
    } else {
        0
    }
}

/// What an analysis has done by the time it is at each stage.
spec fn counts_fit_stage<A>(r: (Stage, Seq<ActionView<A>>)) -> bool {
    match r.0 {
        Stage::AwaitingPermit => {
            &&& replies(r.1) == 0
            &&& instances_taken(r.1) == 0
            &&& instances_returned(r.1) == 0
            &&& permits_taken(r.1) == 0
            &&& permits_returned(r.1) == 0
        },
        Stage::AwaitingInstances => {
            &&& replies(r.1) == 0
            &&& instances_taken(r.1) == 0
            &&& instances_returned(r.1) == 0
            &&& permits_taken(r.1) == 1
            &&& permits_returned(r.1) == 0
        },
        Stage::Analysing => {
            &&& replies(r.1) == 0
            &&& instances_taken(r.1) == 1
            &&& instances_returned(r.1) == 0
            &&& permits_taken(r.1) == 1
            &&& permits_returned(r.1) == 0
        },
        Stage::Finished => {
            &&& replies(r.1) == 1
            &&& instances_taken(r.1) == instances_returned(r.1)
            &&& instances_taken(r.1) <= 1
            &&& permits_taken(r.1) == permits_returned(r.1)
            &&& permits_taken(r.1) <= 1
        },
    }
}

proof fn lemma_counts_fit_stage<A>(timeout_secs: u64, events: Seq<ProcessEvent<A>>)
    ensures
        counts_fit_stage(process_run(Stage::AwaitingPermit, timeout_secs, events)),
    decreases events.len(),
{
    if events.len() > 0 {
        let before = process_run(Stage::AwaitingPermit, timeout_secs, events.drop_last());
        lemma_counts_fit_stage(timeout_secs, events.drop_last());
        let next = process_step(before.0, timeout_secs, events.last());
        assert(before.1.push(next.1).drop_last() =~= before.1);
    }
}

/// An analysis is answered once and only once it has finished: whatever
/// events come, it sends no reply before, exactly one reply by the time it
/// finishes, and none after.
pub proof fn lemma_one_reply<A>(timeout_secs: u64, events: Seq<ProcessEvent<A>>)
    ensures
        replies(process_run(Stage::AwaitingPermit, timeout_secs, events).1) == if process_run(
            Stage::AwaitingPermit,
            timeout_secs,
            events,
        ).0 == Stage::Finished {
            1nat
        } else {
            0nat
        },
{
    lemma_counts_fit_stage(timeout_secs, events);
}

/// The pools get back every instance an analysis takes: at any point, the
/// instances taken are those given back plus those the analysis still holds,
/// and an analysis takes at most one instance from each pool.
pub proof fn lemma_instances_balanced<A>(timeout_secs: u64, events: Seq<ProcessEvent<A>>)
    ensures
        instances_taken(process_run(Stage::AwaitingPermit, timeout_secs, events).1) == instances_returned(
            process_run(Stage::AwaitingPermit, timeout_secs, events).1,
        ) + instances_held(process_run(Stage::AwaitingPermit, timeout_secs, events).0),
        instances_taken(process_run(Stage::AwaitingPermit, timeout_secs, events).1) <= 1,
{
    lemma_counts_fit_stage(timeout_secs, events);
}

/// The concurrency limit gets back every permit an analysis takes: at any
/// point, the permits taken are those given back plus the one the analysis
/// still holds, an analysis takes at most one, and it holds one exactly from
/// the grant until its reply.
pub proof fn lemma_permit_returned<A>(timeout_secs: u64, events: Seq<ProcessEvent<A>>)
    ensures
        permits_taken(process_run(Stage::AwaitingPermit, timeout_secs, events).1) == permits_returned(
            process_run(Stage::AwaitingPermit, timeout_secs, events).1,
        ) + permits_held(process_run(Stage::AwaitingPermit, timeout_secs, events).0),
        permits_taken(process_run(Stage::AwaitingPermit, timeout_secs, events).1) <= 1,
{
    lemma_counts_fit_stage(timeout_secs, events);
}

/// A finished analysis stays finished and does nothing more.
pub proof fn lemma_finished_is_final<A>(timeout_secs: u64, event: ProcessEvent<A>)
    ensures
        process_step(Stage::Finished, timeout_secs, event) == (
            Stage::Finished,
            ActionView::<A>::Wait,
        ),
{
}

/// Once it holds the engine instances, an analysis is run under its own time
/// limit, whatever that limit is.
pub proof fn lemma_instances_start_the_run<A>(timeout_secs: u64)
    ensures
        process_step(Stage::AwaitingInstances, timeout_secs, ProcessEvent::<A>::InstancesAcquired)
            == (Stage::Analysing, ActionView::<A>::RunAnalysis(timeout_secs)),
{
}

/// Whatever happens, every run that an analysis starts is under the time
/// limit the analysis was given, and no other.
pub proof fn lemma_runs_under_own_limit<A>(
    stage: Stage,
    timeout_secs: u64,
    events: Seq<ProcessEvent<A>>,
)
    ensures
        forall|i: int|
            0 <= i < process_run(stage, timeout_secs, events).1.len() ==> (
            #[trigger] process_run(stage, timeout_secs, events).1[i] matches ActionView::RunAnalysis(
                limit,
            ) ==> limit == timeout_secs),
    decreases events.len(),
{
    if events.len() > 0 {
        lemma_runs_under_own_limit(stage, timeout_secs, events.drop_last());
        let before = process_run(stage, timeout_secs, events.drop_last());
        let next = process_step(before.0, timeout_secs, events.last());
        assert(next.1 matches ActionView::RunAnalysis(limit) ==> limit == timeout_secs);
        assert forall|i: int| 0 <= i < before.1.len() implies before.1.push(next.1)[i]
            == before.1[i] by {}
    }
}

/// One analysis under way.
pub struct Processing {
    stage: Stage,
    timeout_secs: u64,
}

/// A reply of the service itself.
fn failure<A>(status: u16, message: &str) -> (reply: Reply<A>)
    ensures
        reply@ == ReplyView::<A>::Failure(own_reply(status, message@)),
{
    Reply::Failure(
        ErrorReply {
            status: status,
            error: AnalysisError {
                upstream_body: None,
                upstream_status_code: None,
                body: Some(owned(message)),
            },
        },
    )
}

impl Processing {
    /// The stage the analysis is at.
    pub closed spec fn stage_of(&self) -> Stage {
        self.stage
    }

    /// The time limit of the analysis, in seconds.
    pub closed spec fn timeout_of(&self) -> u64 {
        self.timeout_secs
    }

    /// Starts an analysis whose time limit is `timeout_secs`: it first waits
    /// for a permit.
    pub fn start<A>(timeout_secs: u64) -> (res: (Processing, ProcessAction<A>))
        ensures
            res.0.stage_of() == Stage::AwaitingPermit,
            res.0.timeout_of() == timeout_secs,
            res.1@ == ActionView::<A>::AcquirePermit,
    {
        (Processing { stage: Stage::AwaitingPermit, timeout_secs: timeout_secs }, ProcessAction::AcquirePermit)
    }

    /// The stage the analysis is at.
    pub fn stage(&self) -> (stage: Stage)
        ensures
            stage == self.stage_of(),
    {
        self.stage
    }

    /// Takes what happened and says what to do next.
    pub fn step<A>(&mut self, event: ProcessEvent<A>) -> (action: ProcessAction<A>)
        ensures
            (final(self).stage_of(), action@) == process_step(
                old(self).stage_of(),
                old(self).timeout_of(),
                event,
            ),
            final(self).timeout_of() == old(self).timeout_of(),
            action@ matches ActionView::RunAnalysis(limit) ==> limit == old(self).timeout_of(),
    {
        match (self.stage, event) {
            (Stage::AwaitingPermit, ProcessEvent::PermitGranted) => {
                self.stage = Stage::AwaitingInstances;
                ProcessAction::AcquireInstances
            },
            (Stage::AwaitingPermit, ProcessEvent::PermitRefused) => {
                self.stage = Stage::Finished;
                ProcessAction::Respond(
                    None,
                    Permit::NotHeld,
                    failure(STATUS_SERVICE_UNAVAILABLE, "Service overloaded"),
                )
            },
            (Stage::AwaitingInstances, ProcessEvent::InstancesAcquired) => {
                self.stage = Stage::Analysing;
                ProcessAction::RunAnalysis(self.timeout_secs)
            },
            (Stage::Analysing, ProcessEvent::AnalysisDone(Ok(a))) => {
                self.stage = Stage::Finished;
                ProcessAction::Respond(Some(PoolAction::Release), Permit::GiveBack, Reply::Analysis(a))
            },
            (Stage::Analysing, ProcessEvent::AnalysisDone(Err(message))) => {
                self.stage = Stage::Finished;
                ProcessAction::Respond(
                    Some(PoolAction::Release),
                    Permit::GiveBack,
                    Reply::Failure(
                        ErrorReply {
                            status: STATUS_UNPROCESSABLE_ENTITY,
                            error: AnalysisError {
                                upstream_body: None,
                                upstream_status_code: None,
                                body: Some(message),
                            },
                        },
                    ),
                )
            },
            (Stage::Analysing, ProcessEvent::AnalysisPanicked) => {
                self.stage = Stage::Finished;
                ProcessAction::Respond(
                    Some(PoolAction::Replenish),
                    Permit::GiveBack,
                    failure(STATUS_INTERNAL_SERVER_ERROR, "Internal processing error"),
                )
            },
            (Stage::Analysing, ProcessEvent::TimedOut) => {
                self.stage = Stage::Finished;
                ProcessAction::Respond(
                    Some(PoolAction::Replenish),
                    Permit::GiveBack,
                    failure(STATUS_SERVICE_UNAVAILABLE, "OCR processing timeout"),
                )
            },
            _ => ProcessAction::Wait,
        }
    }
}

} // verus!
