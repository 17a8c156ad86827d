//! Decisions of the deep-worker dispatch: which operations are accepted,
//! how the designer's settings resolve, what the planner is asked, how
//! delegation is kept out when it is switched off, and the prose reply of a
//! finished run.

use vstd::prelude::*;

use crate::cap_types::strings_view;
use crate::delegation::{
    eq_ignore_ascii, str_eq_ignore_ascii_case, DelegationDecision, DelegationError, DelegationErrorView,
    DelegationHandle, DelegationMergeResult, DelegationProvider, DelegationRequest, MergeSubtaskResultRequest,
    StartSubtaskRequest,
};
use crate::manifest::{
    LocaleContext, LocalePropagation, OutputLocaleGuidance, TaskEnvelope, TaskLifecycleState, TenantScope,
    WorkerLocalePolicy,
};
use crate::planning::{steps_view, CreatePlanRequest, PlanDocument, PlanStep, PlanStepKind, PlanStepStatus, StepView};
use crate::reflection::ReviewVerdict;
use crate::text::{decimal, is_blank, str_is_blank, str_trim, trimmed, u64_to_decimal};

verus! {

/// Iterations of a deep loop run without designer settings.
pub const DEFAULT_MAX_ITERATIONS: usize = 64;

/// The designer's default iteration budget.
pub const DESIGNER_DEFAULT_ITERATION_BUDGET: u32 = 8;

/// Planner instruction added when delegation is off.
pub const NO_DELEGATION_CONSTRAINT: &'static str = "Do not create steps of kind `delegate`: this worker has no other agents to hand work to, so every step must be carried out by the worker itself.";

pub const DELEGATION_OFF: &'static str = "delegation is switched off for this deep worker";

pub const DEFAULT_GOAL: &'static str = "Execute the requested task";

pub const FALLBACK_TASK_ID: &'static str = "task-unknown";

// ---------------------------------------------------------------------------
// Operations and settings
// ---------------------------------------------------------------------------

/// A dispatch operation this invoker does not run.
#[derive(Debug, PartialEq, Eq)]
pub enum OperationError {
    Unsupported { operation: String },
}

/// An accepted operation: blank, or `run` in any ASCII case.
pub open spec fn operation_accepted(op: Seq<char>) -> bool {
    let t = trimmed(op);
    t.len() == 0 || eq_ignore_ascii(t, "run"@)
}

/// Accepts the default deep loop: an empty operation or `run`.
pub fn validate_operation(operation: &str) -> (r: Result<(), OperationError>)
    ensures
        r is Ok <==> operation_accepted(operation@),
        r matches Err(OperationError::Unsupported { operation: o }) ==> o@ == operation@,
{
    let op = str_trim(operation);
    if op.as_str().unicode_len() == 0 || str_eq_ignore_ascii_case(op.as_str(), "run") {
        Ok(())
    } else {
        Err(OperationError::Unsupported { operation: String::from_str(operation) })
    }
}

/// The designer's deep-worker settings as sent; every field is optional.
#[derive(Clone, Copy, Debug, PartialEq, Eq, Default)]
pub struct DeepWorkerSettings {
    pub iteration_budget: Option<u32>,
    pub reflection: Option<bool>,
    pub delegation: Option<bool>,
}

/// Concrete knobs for one run.
#[derive(Clone, Copy, Debug, PartialEq, Eq, Structural)]
pub struct ResolvedSettings {
    pub max_iterations: usize,
    pub reflection: bool,
    pub delegation: bool,
}

pub open spec fn resolved(settings: Option<DeepWorkerSettings>) -> ResolvedSettings {
    match settings {
        None => ResolvedSettings { max_iterations: DEFAULT_MAX_ITERATIONS, reflection: true, delegation: true },
        Some(s) => {
            let budget = match s.iteration_budget {
                Some(b) => b,
                None => DESIGNER_DEFAULT_ITERATION_BUDGET,
            };
            ResolvedSettings {
                max_iterations: if budget < 1 {
                    1
                } else {
                    budget as usize
                },
                reflection: s.reflection == Some(true),
                delegation: s.delegation == Some(true),
            }
        },
    }
}

impl ResolvedSettings {
    /// No settings keep the earlier behaviour (64 iterations, reflection and
    /// delegation on); with settings a missing field takes the designer's
    /// default (budget 8, reflection and delegation off); a zero budget runs
    /// one iteration.
    pub fn resolve(settings: Option<&DeepWorkerSettings>) -> (r: Self)
        ensures
            r == resolved(match settings {
                Some(s) => Some(*s),
                None => None,
            }),
    {
        match settings {
            None => ResolvedSettings { max_iterations: DEFAULT_MAX_ITERATIONS, reflection: true, delegation: true },
            Some(s) => {
                let budget: u32 = match s.iteration_budget {
                    Some(b) => b,
                    None => DESIGNER_DEFAULT_ITERATION_BUDGET,
                };
                let budget: u32 = if budget < 1 {
                    1
                } else {
                    budget
                };
                ResolvedSettings {
                    max_iterations: budget as usize,
                    reflection: match s.reflection {
                        Some(true) => true,
                        _ => false,
                    },
                    delegation: match s.delegation {
                        Some(true) => true,
                        _ => false,
                    },
                }
            },
        }
    }
}

/// Which assessor judges the steps of a run.
#[derive(Clone, Copy, Debug, PartialEq, Eq, Structural)]
pub enum ReviewerChoice {
    /// Reflection off: every review accepts.
    AcceptAll,
    /// The model reviews.
    Model,
    /// The model reviews, but a delegate verdict becomes accept.
    ModelWithoutDelegate,
}

/// Reflection off accepts everything; with delegation off the model's
/// delegate verdicts are turned into accepts.
pub fn reviewer_choice(settings: &ResolvedSettings) -> (r: ReviewerChoice)
    ensures
        !settings.reflection ==> r == ReviewerChoice::AcceptAll,
        settings.reflection && settings.delegation ==> r == ReviewerChoice::Model,
        settings.reflection && !settings.delegation ==> r == ReviewerChoice::ModelWithoutDelegate,
{
    if !settings.reflection {
        ReviewerChoice::AcceptAll
    } else if settings.delegation {
        ReviewerChoice::Model
    } else {
        ReviewerChoice::ModelWithoutDelegate
    }
}

/// A delegate verdict becomes accept; every other verdict stays.
pub fn without_delegate(verdict: ReviewVerdict) -> (r: ReviewVerdict)
    ensures
        verdict == ReviewVerdict::Delegate ==> r == ReviewVerdict::Accept,
        verdict != ReviewVerdict::Delegate ==> r == verdict,
{
    match verdict {
        ReviewVerdict::Delegate => ReviewVerdict::Accept,
        other => other,
    }
}

/// The goal of a dispatch: its `goal` text, else its `user_text`, else the
/// default goal.
pub fn extract_goal(goal: Option<&str>, user_text: Option<&str>) -> (r: String)
    ensures
        r@ == match goal {
            Some(g) => g@,
            None => match user_text {
                Some(u) => u@,
                None => DEFAULT_GOAL@,
            },
        },
{
    match goal {
        Some(g) => String::from_str(g),
        None => match user_text {
            Some(u) => String::from_str(u),
            None => String::from_str(DEFAULT_GOAL),
        },
    }
}

/// The plan request of a run: no constraint with delegation on, the
/// no-delegation instruction with it off; success is the task completing.
pub fn plan_request(goal: String, delegation: bool) -> (r: CreatePlanRequest)
    ensures
        r.goal == goal,
        r.assumptions@.len() == 0,
        strings_view(r.constraints@) == (if delegation {
            Seq::<Seq<char>>::empty()
        } else {
            seq![NO_DELEGATION_CONSTRAINT@]
        }),
        strings_view(r.success_criteria@) == seq!["task completed"@],
{
    let mut constraints: Vec<String> = Vec::new();
    if !delegation {
        constraints.push(String::from_str(NO_DELEGATION_CONSTRAINT));
    }
    let mut success_criteria: Vec<String> = Vec::new();
    success_criteria.push(String::from_str("task completed"));
    assert(strings_view(success_criteria@) =~= seq!["task completed"@]);
    assert(strings_view(constraints@) =~= (if delegation {
        Seq::<Seq<char>>::empty()
    } else {
        seq![NO_DELEGATION_CONSTRAINT@]
    }));
    CreatePlanRequest { goal, assumptions: Vec::new(), constraints, success_criteria }
}

/// A created task for a dispatch, in the tenant without team, answering in
/// the requested locale (default `en-US`).
pub fn build_envelope(tenant: &str, target: &str, task_id: &str) -> (r: TaskEnvelope)
    ensures
        r.task_id@ == task_id@,
        r.worker_id@ == target@,
        r.state == TaskLifecycleState::Created,
        r.scope.tenant@ == tenant@,
        r.scope.team is None,
        r.locale.worker_default_locale@ == "en-US"@,
        r.locale.requested_locale is None,
        r.locale.human_locale is None,
        r.locale.policy == WorkerLocalePolicy::PreferRequested,
        r.locale.propagation == LocalePropagation::PropagateToDelegates,
        r.locale.output == OutputLocaleGuidance::MatchRequested,
{
    TaskEnvelope {
        task_id: String::from_str(task_id),
        worker_id: String::from_str(target),
        state: TaskLifecycleState::Created,
        scope: TenantScope { tenant: String::from_str(tenant), team: None },
        locale: LocaleContext {
            worker_default_locale: String::from_str("en-US"),
            requested_locale: None,
            human_locale: None,
            policy: WorkerLocalePolicy::PreferRequested,
            propagation: LocalePropagation::PropagateToDelegates,
            output: OutputLocaleGuidance::MatchRequested,
        },
    }
}

// ---------------------------------------------------------------------------
// Delegation switched off
// ---------------------------------------------------------------------------

/// The error every delegation call gets when delegation is off.
pub fn refusal() -> (r: DelegationError)
    ensures
        r@ == DelegationErrorView::Validation(DELEGATION_OFF@),
{
    DelegationError::Validation(String::from_str(DELEGATION_OFF))
}

/// Delegation switched off: every call is refused.
pub struct RefuseDelegation;

impl DelegationProvider for RefuseDelegation {
    fn choose_delegate(&self, req: DelegationRequest) -> (r: Result<DelegationDecision, DelegationError>)
        ensures
            r matches Err(e) && e@ == DelegationErrorView::Validation(DELEGATION_OFF@),
    {
        Err(refusal())
    }

    fn start_subtask(&self, req: StartSubtaskRequest) -> (r: Result<DelegationHandle, DelegationError>)
        ensures
            r matches Err(e) && e@ == DelegationErrorView::Validation(DELEGATION_OFF@),
    {
        Err(refusal())
    }

    fn merge_result(&self, req: MergeSubtaskResultRequest) -> (r: Result<DelegationMergeResult, DelegationError>)
        ensures
            r matches Err(e) && e@ == DelegationErrorView::Validation(DELEGATION_OFF@),
    {
        Err(refusal())
    }
}

pub open spec fn stripped_step(s: StepView) -> StepView {
    if s.kind == PlanStepKind::Delegate {
        StepView {
            step_id: s.step_id,
            title: s.title,
            kind: PlanStepKind::Research,
            status: s.status,
            depends_on: s.depends_on,
            assigned_agent: None,
            inputs_schema_ref: s.inputs_schema_ref,
            output_schema_ref: s.output_schema_ref,
            retry_count: s.retry_count,
        }
    } else {
        s
    }
}

/// Rewrites every delegate step into a research step the worker runs itself,
/// with no assigned agent; other steps and the rest of the plan stay.
pub fn strip_delegate_steps(plan: &mut PlanDocument)
    ensures
        steps_view(final(plan).steps@) == steps_view(old(plan).steps@).map_values(|s: StepView| stripped_step(s)),
        final(plan).plan_id == old(plan).plan_id && final(plan).goal == old(plan).goal,
        final(plan).status == old(plan).status && final(plan).revision == old(plan).revision,
        final(plan).assumptions == old(plan).assumptions && final(plan).constraints == old(plan).constraints,
        final(plan).success_criteria == old(plan).success_criteria,
        final(plan).edges == old(plan).edges && final(plan).metadata == old(plan).metadata,
{
    let ghost target = steps_view(old(plan).steps@).map_values(|s: StepView| stripped_step(s));
    let mut i: usize = 0;
    while i < plan.steps.len()
        invariant
            i <= plan.steps.len(),
            plan.steps.len() == old(plan).steps.len(),
            target == steps_view(old(plan).steps@).map_values(|s: StepView| stripped_step(s)),
            forall|k: int| 0 <= k < i ==> steps_view(plan.steps@)[k] == target[k],
            forall|k: int| i <= k < plan.steps.len() ==> plan.steps@[k] == old(plan).steps@[k],
            plan.plan_id == old(plan).plan_id && plan.goal == old(plan).goal,
            plan.status == old(plan).status && plan.revision == old(plan).revision,
            plan.assumptions == old(plan).assumptions && plan.constraints == old(plan).constraints,
            plan.success_criteria == old(plan).success_criteria,
            plan.edges == old(plan).edges && plan.metadata == old(plan).metadata,
        decreases plan.steps.len() - i,
    {
        let is_delegate = match plan.steps[i].kind {
            PlanStepKind::Delegate => true,
            _ => false,
        };
        if is_delegate {
            let mut step = plan.steps.remove(i);
            step.kind = PlanStepKind::Research;
            step.assigned_agent = None;
            plan.steps.insert(i, step);
        }
        assert(steps_view(plan.steps@)[i as int] == target[i as int]);
        i = i + 1;
    }
    assert(steps_view(plan.steps@) =~= target);
}

// ---------------------------------------------------------------------------
// The reply of a finished run
// ---------------------------------------------------------------------------

/// Status of a deep loop run.
#[derive(Clone, Copy, Debug, PartialEq, Eq, Structural)]
pub enum DeepLoopStatus {
    Idle,
    Planning,
    Executing,
    Reflecting,
    Revising,
    Delegating,
    Completed,
    BudgetExhausted,
    Failed,
}

pub open spec fn loop_status_text(s: DeepLoopStatus) -> Seq<char> {
    match s {
        DeepLoopStatus::Idle => "idle"@,
        DeepLoopStatus::Planning => "planning"@,
        DeepLoopStatus::Executing => "executing"@,
        DeepLoopStatus::Reflecting => "reflecting"@,
        DeepLoopStatus::Revising => "revising"@,
        DeepLoopStatus::Delegating => "delegating"@,
        DeepLoopStatus::Completed => "completed"@,
        DeepLoopStatus::BudgetExhausted => "budget_exhausted"@,
        DeepLoopStatus::Failed => "failed"@,
    }
}

/// The name a loop status is shown with.
pub fn loop_status_name(s: DeepLoopStatus) -> (r: &'static str)
    ensures
        r@ == loop_status_text(s),
{
    match s {
        DeepLoopStatus::Idle => "idle",
        DeepLoopStatus::Planning => "planning",
        DeepLoopStatus::Executing => "executing",
        DeepLoopStatus::Reflecting => "reflecting",
        DeepLoopStatus::Revising => "revising",
        DeepLoopStatus::Delegating => "delegating",
        DeepLoopStatus::Completed => "completed",
        DeepLoopStatus::BudgetExhausted => "budget_exhausted",
        DeepLoopStatus::Failed => "failed",
    }
}

pub open spec fn step_status_text(s: PlanStepStatus) -> Seq<char> {
    match s {
        PlanStepStatus::Pending => "pending"@,
        PlanStepStatus::Ready => "ready"@,
        PlanStepStatus::Running => "running"@,
        PlanStepStatus::Blocked => "blocked"@,
        PlanStepStatus::Completed => "completed"@,
        PlanStepStatus::Failed => "failed"@,
        PlanStepStatus::Skipped => "skipped"@,
    }
}

/// The label a step status is shown with.
pub fn step_status_label(status: &PlanStepStatus) -> (r: &'static str)
    ensures
        r@ == step_status_text(*status),
{
    match status {
        PlanStepStatus::Pending => "pending",
        PlanStepStatus::Ready => "ready",
        PlanStepStatus::Running => "running",
        PlanStepStatus::Blocked => "blocked",
        PlanStepStatus::Completed => "completed",
        PlanStepStatus::Failed => "failed",
        PlanStepStatus::Skipped => "skipped",
    }
}

pub open spec fn steps_text(count: nat) -> Seq<char> {
    if count == 1 {
        "step"@
    } else {
        "steps"@
    }
}

/// `step` for one, `steps` otherwise.
pub fn steps_word(count: usize) -> (r: &'static str)
    ensures
        r@ == steps_text(count as nat),
{
    if count == 1 {
        "step"
    } else {
        "steps"
    }
}

/// Number of completed steps.
pub open spec fn completed_count(steps: Seq<StepView>) -> nat
    decreases steps.len(),
{
    if steps.len() == 0 {
        0
    } else {
        completed_count(steps.drop_last()) + if steps.last().status == PlanStepStatus::Completed {
            1nat
        } else {
            0nat
        }
    }
}

/// The status sentence used when no reply was written.
pub open spec fn fallback_text(status: DeepLoopStatus, steps: Seq<StepView>) -> Seq<char> {
    let done = completed_count(steps);
    let total = steps.len();
    match status {
        DeepLoopStatus::Completed => "The task completed in "@ + decimal(done) + " "@ + steps_text(done) + "."@,
        DeepLoopStatus::BudgetExhausted => "The task stopped after reaching its step budget, with "@ + decimal(done)
            + " of "@ + decimal(total) + " "@ + steps_text(total) + " done."@,
        DeepLoopStatus::Failed => "The task could not be completed; "@ + decimal(done) + " of "@ + decimal(total) + " "@
            + steps_text(total) + " were done before it stopped."@,
        DeepLoopStatus::Revising => "The task stopped because its plan needed revising; "@ + decimal(done) + " of "@
            + decimal(total) + " "@ + steps_text(total) + " were done."@,
        DeepLoopStatus::Delegating => "The task was handed to other workers and has no result yet."@,
        _ => "The task stopped while "@ + loop_status_text(status) + "."@,
    }
}

fn count_completed(steps: &Vec<PlanStep>) -> (r: usize)
    ensures
        r == completed_count(steps_view(steps@)),
        r <= steps.len(),
{
    let ghost v = steps_view(steps@);
    let mut n: usize = 0;
    let mut i: usize = 0;
    while i < steps.len()
        invariant
            i <= steps.len(),
            v == steps_view(steps@),
            n <= i,
            n == completed_count(v.take(i as int)),
        decreases steps.len() - i,
    {
        proof {
            assert(v.take(i + 1).drop_last() =~= v.take(i as int));
            assert(v.take(i + 1).last() == steps@[i as int]@);
        }
        if let PlanStepStatus::Completed = steps[i].status {
            n = n + 1;
        }
        i = i + 1;
    }
    proof {
        assert(v.take(i as int) =~= v);
    }
    n
}

fn append_count(s: &mut String, n: usize)
    ensures
        final(s)@ == old(s)@ + decimal(n as nat),
{
    let d = u64_to_decimal(n as u64);
    s.append(d.as_str());
}

/// Human-readable status sentence for a finished run, used when the written
/// reply fails or is empty. Never JSON.
pub fn fallback_reply(status: DeepLoopStatus, steps: &Vec<PlanStep>) -> (r: String)
    ensures
        r@ == fallback_text(status, steps_view(steps@)),
{
    let total = steps.len();
    let done = count_completed(steps);
    match status {
        DeepLoopStatus::Completed => {
            let mut s = String::from_str("The task completed in ");
            append_count(&mut s, done);
            s.append(" ");
            s.append(steps_word(done));
            s.append(".");
            s
        },
        DeepLoopStatus::BudgetExhausted => {
            let mut s = String::from_str("The task stopped after reaching its step budget, with ");
            append_count(&mut s, done);
            s.append(" of ");
            append_count(&mut s, total);
            s.append(" ");
            s.append(steps_word(total));
            s.append(" done.");
            s
        },
        DeepLoopStatus::Failed => {
            let mut s = String::from_str("The task could not be completed; ");
            append_count(&mut s, done);
            s.append(" of ");
            append_count(&mut s, total);
            s.append(" ");
            s.append(steps_word(total));
            s.append(" were done before it stopped.");
            s
        },
        DeepLoopStatus::Revising => {
            let mut s = String::from_str("The task stopped because its plan needed revising; ");
            append_count(&mut s, done);
            s.append(" of ");
            append_count(&mut s, total);
            s.append(" ");
            s.append(steps_word(total));
            s.append(" were done.");
            s
        },
        DeepLoopStatus::Delegating => String::from_str("The task was handed to other workers and has no result yet."),
        _ => {
            let mut s = String::from_str("The task stopped while ");
            s.append(loop_status_name(status));
            s.append(".");
            s
        },
    }
}

/// One numbered step line of the reply prompt.
pub open spec fn step_line(index: nat, s: StepView) -> Seq<char> {
    decimal(index + 1) + ". "@ + s.title + " — "@ + step_status_text(s.status)
}

/// The numbered step lines, joined by newlines.
pub open spec fn step_lines(steps: Seq<StepView>) -> Seq<char>
    decreases steps.len(),
{
    if steps.len() == 0 {
        Seq::empty()
    } else if steps.len() == 1 {
        step_line(0, steps[0])
    } else {
        step_lines(steps.drop_last()) + "\n"@ + step_line((steps.len() - 1) as nat, steps.last())
    }
}

/// The user message of the reply call: goal, outcome, then every step.
pub open spec fn reply_prompt_text(goal: Seq<char>, status: DeepLoopStatus, steps: Seq<StepView>) -> Seq<char> {
    "Goal: "@ + goal + "\nOutcome: "@ + loop_status_text(status) + "\n\nPlan steps:\n"@ + if steps.len() == 0 {
        "(no steps)"@
    } else {
        step_lines(steps)
    }
}

/// Builds the user message of the reply call.
pub fn reply_user_prompt(goal: &str, status: DeepLoopStatus, steps: &Vec<PlanStep>) -> (r: String)
    requires
        steps.len() < u64::MAX,
    ensures
        r@ == reply_prompt_text(goal@, status, steps_view(steps@)),
{
    let ghost v = steps_view(steps@);
    let mut s = String::from_str("Goal: ");
    s.append(goal);
    s.append("\nOutcome: ");
    s.append(loop_status_name(status));
    s.append("\n\nPlan steps:\n");
    let ghost head = s@;
    if steps.len() == 0 {
        s.append("(no steps)");
        return s;
    }
    let mut i: usize = 0;
    proof {
        assert(v.take(0) =~= Seq::<StepView>::empty());
        assert(s@ =~= head + Seq::<char>::empty());
    }
    while i < steps.len()
        invariant
            i <= steps.len(),
            steps.len() < u64::MAX,
            v == steps_view(steps@),
            s@ == head + step_lines(v.take(i as int)),
        decreases steps.len() - i,
    {
        proof {
            assert(v.take(i + 1).drop_last() =~= v.take(i as int));
            assert(v.take(i + 1).last() == steps@[i as int]@);
            if i == 0 {
                assert(v.take(1)[0] == steps@[0]@);
            }
        }
        if i > 0 {
            s.append("\n");
        }
        let n = u64_to_decimal((i as u64) + 1);
        s.append(n.as_str());
        s.append(". ");
        s.append(steps[i].title.as_str());
        s.append(" — ");
        s.append(step_status_label(&steps[i].status));
        proof {
            assert(s@ =~= head + step_lines(v.take(i + 1)));
        }
        i = i + 1;
    }
    proof {
        assert(v.take(i as int) =~= v);
    }
    s
}


/// The reply of a run given what the synthesis call answered (`None` when
/// it failed): the answer trimmed, when that leaves any text; otherwise the
/// status sentence.
pub open spec fn settled_reply_text(answer: Option<Seq<char>>, status: DeepLoopStatus, steps: Seq<StepView>) -> Seq<char> {
    match answer {
        Some(t) => if trimmed(t).len() > 0 {
            trimmed(t)
        } else {
            fallback_text(status, steps)
        },
        None => fallback_text(status, steps),
    }
}

/// Settles the reply of a run from the synthesis call's answer, `None` when
/// the call failed: a failed or empty synthesis falls back to the status
/// sentence.
pub fn settle_reply(answer: Option<&str>, status: DeepLoopStatus, steps: &Vec<PlanStep>) -> (r: String)
    ensures
        r@ == settled_reply_text(
            match answer {
                Some(t) => Some(t@),
                None => None,
            },
            status,
            steps_view(steps@),
        ),
{
    match answer {
        Some(t) => {
            let text = str_trim(t);
            if text.unicode_len() > 0 {
                text
            } else {
                fallback_reply(status, steps)
            }
        },
        None => fallback_reply(status, steps),
    }
}

/// What a finished run answers the dispatch: success only for a completed
/// run, the run's status by name, the operation, the ids of the artifacts
/// it produced and its prose reply.
pub struct RunOutcome {
    pub ok: bool,
    pub status: String,
    pub operation: String,
    pub artifact_ids: Vec<String>,
    pub reply: String,
}

/// Maps a finished run to what the dispatch is answered.
pub fn outcome_from_run(status: DeepLoopStatus, artifact_ids: Vec<String>, operation: &str, reply: String) -> (r: RunOutcome)
    ensures
        r.ok == (status == DeepLoopStatus::Completed),
        r.status@ == loop_status_text(status),
        r.operation@ == operation@,
        r.artifact_ids == artifact_ids,
        r.reply == reply,
{
    RunOutcome {
        ok: match status {
            DeepLoopStatus::Completed => true,
            _ => false,
        },
        status: String::from_str(loop_status_name(status)),
        operation: String::from_str(operation),
        artifact_ids,
        reply,
    }
}

/// The steps whose status is `Completed`.
pub open spec fn is_completed() -> spec_fn(StepView) -> bool {
    |s: StepView| s.status == PlanStepStatus::Completed
}

/// The done count of the status sentence is the number of steps whose
/// status is `Completed`: a step of any other status (failed, skipped,
/// blocked, ...) never adds to it, a completed one adds one, and the count
/// reaches the number of steps exactly when every step completed.
pub proof fn law_done_counts_completed_steps(steps: Seq<StepView>, s: StepView)
    ensures
        completed_count(steps) == steps.filter(is_completed()).len(),
        completed_count(steps.push(s)) == completed_count(steps) + if s.status == PlanStepStatus::Completed {
            1int
        } else {
            0int
        },
        completed_count(steps) <= steps.len(),
        completed_count(steps) == steps.len() <==> forall|k: int| 0 <= k < steps.len() ==> (#[trigger] steps[k]).status
            == PlanStepStatus::Completed,
    decreases steps.len(),
{
    reveal(Seq::filter);
    assert(steps.push(s).drop_last() =~= steps);
    if steps.len() > 0 {
        let p = steps.drop_last();
        law_done_counts_completed_steps(p, steps.last());
        if completed_count(steps) == steps.len() {
            assert forall|k: int| 0 <= k < steps.len() implies (#[trigger] steps[k]).status == PlanStepStatus::Completed by {
                if k < p.len() {
                    assert(p[k] == steps[k]);
                }
            }
        }
        if forall|k: int| 0 <= k < steps.len() ==> (#[trigger] steps[k]).status == PlanStepStatus::Completed {
            assert forall|k: int| 0 <= k < p.len() implies (#[trigger] p[k]).status == PlanStepStatus::Completed by {
                assert(p[k] == steps[k]);
            }
            assert(steps[steps.len() - 1].status == PlanStepStatus::Completed);
        }
    }
}

/// A run always gets at least one iteration, whatever the designer sent.
pub proof fn law_iteration_budget_positive(settings: Option<DeepWorkerSettings>)
    ensures
        resolved(settings).max_iterations >= 1,
{
}

/// The steps of a plan with delegation stripped.
pub open spec fn stripped_steps(steps: Seq<StepView>) -> Seq<StepView> {
    steps.map_values(|s: StepView| stripped_step(s))
}

/// With delegation off no step of the plan is left to delegate, the
/// rewritten steps are assigned to no other agent, and no step is lost.
pub proof fn law_stripped_plan_has_no_delegation(steps: Seq<StepView>)
    ensures
        stripped_steps(steps).len() == steps.len(),
        forall|k: int| 0 <= k < steps.len() ==> (#[trigger] stripped_steps(steps)[k]).kind != PlanStepKind::Delegate,
        forall|k: int| 0 <= k < steps.len() && steps[k].kind == PlanStepKind::Delegate ==> (
        #[trigger] stripped_steps(steps)[k]).assigned_agent is None,
        forall|k: int| 0 <= k < steps.len() ==> (#[trigger] stripped_steps(steps)[k]).step_id == steps[k].step_id,
{
}

/// The fallback reply is prose: it is never empty and always opens with
/// `The task`, so it is never mistaken for JSON.
pub proof fn law_fallback_is_prose(status: DeepLoopStatus, steps: Seq<StepView>)
    ensures
        fallback_text(status, steps).len() >= 8,
        fallback_text(status, steps).take(8) == "The task"@,
{
    reveal_strlit("The task");
    reveal_strlit("The task completed in ");
    reveal_strlit("The task stopped after reaching its step budget, with ");
    reveal_strlit("The task could not be completed; ");
    reveal_strlit("The task stopped because its plan needed revising; ");
    reveal_strlit("The task was handed to other workers and has no result yet.");
    reveal_strlit("The task stopped while ");
    let t = fallback_text(status, steps);
    assert(t.take(8) =~= "The task"@);
}


/// A run's reply is never empty: it is the synthesized text when there is
/// any, and the status sentence, which opens with `The task`, otherwise.
pub proof fn law_reply_never_empty(answer: Option<Seq<char>>, status: DeepLoopStatus, steps: Seq<StepView>)
    ensures
        settled_reply_text(answer, status, steps).len() > 0,
        (answer is None || trimmed(answer->0).len() == 0) ==> settled_reply_text(answer, status, steps)
            == fallback_text(status, steps),
{
    law_fallback_is_prose(status, steps);
}

} // verus!
