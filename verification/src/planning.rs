//! Plans of a deep-agent flow: steps with dependencies and edges, their
//! validation, the legal step status transitions, and the deterministic
//! bookkeeping of step results and plan completion.

use vstd::prelude::*;

use crate::cap_types::{metadata_view, opt_string_view, scan, strings_view, MetadataEntry};
use crate::cap_types::{lemma_scan_full, lemma_scan_prefix, lemma_scan_step, lemma_scan_stop};
use crate::text::{is_blank, str_equal, str_is_blank};

verus! {

/// Lifecycle status of a plan.
#[derive(Clone, Copy, Debug, PartialEq, Eq, Structural)]
pub enum PlanStatus {
    Active,
}

/// What a step does.
#[derive(Clone, Copy, Debug, PartialEq, Eq, Structural)]
pub enum PlanStepKind {
    Research,
    Review,
    ToolCall,
    Delegate,
}

/// Execution status of a step.
#[derive(Clone, Copy, Debug, PartialEq, Eq, Structural)]
pub enum PlanStepStatus {
    Pending,
    Ready,
    Running,
    Blocked,
    Completed,
    Failed,
    Skipped,
}

/// Whether a plan's goal has been met.
#[derive(Clone, Copy, Debug, PartialEq, Eq, Structural)]
pub enum CompletionState {
    Satisfied,
    Unsatisfied,
    Incomplete,
}

/// Planning failure.
#[derive(Clone, Debug, PartialEq, Eq)]
pub enum PlanningError {
    /// The plan or request is malformed.
    Validation(String),
    /// The planning backend failed.
    Provider(String),
}

pub enum PlanningErrorView {
    Validation(Seq<char>),
    Provider(Seq<char>),
}

impl View for PlanningError {
    type V = PlanningErrorView;

    open spec fn view(&self) -> PlanningErrorView {
        match self {
            PlanningError::Validation(m) => PlanningErrorView::Validation(m@),
            PlanningError::Provider(m) => PlanningErrorView::Provider(m@),
        }
    }
}

/// One step of a plan.
#[derive(Debug, PartialEq, Eq)]
pub struct PlanStep {
    pub step_id: String,
    pub title: String,
    pub kind: PlanStepKind,
    pub status: PlanStepStatus,
    pub depends_on: Vec<String>,
    pub assigned_agent: Option<String>,
    pub inputs_schema_ref: Option<String>,
    pub output_schema_ref: Option<String>,
    pub retry_count: u32,
}

/// A directed edge between two steps.
#[derive(Debug, PartialEq, Eq)]
pub struct PlanEdge {
    pub from_step_id: String,
    pub to_step_id: String,
    pub condition: Option<String>,
}

/// A structured execution plan.
#[derive(Debug, PartialEq, Eq)]
pub struct PlanDocument {
    pub plan_id: String,
    pub goal: String,
    pub status: PlanStatus,
    pub revision: u32,
    pub assumptions: Vec<String>,
    pub constraints: Vec<String>,
    pub success_criteria: Vec<String>,
    pub steps: Vec<PlanStep>,
    pub edges: Vec<PlanEdge>,
    /// Free-form metadata in ascending key order; values are JSON text.
    pub metadata: Vec<MetadataEntry>,
}

pub struct StepView {
    pub step_id: Seq<char>,
    pub title: Seq<char>,
    pub kind: PlanStepKind,
    pub status: PlanStepStatus,
    pub depends_on: Seq<Seq<char>>,
    pub assigned_agent: Option<Seq<char>>,
    pub inputs_schema_ref: Option<Seq<char>>,
    pub output_schema_ref: Option<Seq<char>>,
    pub retry_count: u32,
}

pub struct EdgeView {
    pub from_step_id: Seq<char>,
    pub to_step_id: Seq<char>,
    pub condition: Option<Seq<char>>,
}

pub struct PlanView {
    pub plan_id: Seq<char>,
    pub goal: Seq<char>,
    pub status: PlanStatus,
    pub revision: u32,
    pub assumptions: Seq<Seq<char>>,
    pub constraints: Seq<Seq<char>>,
    pub success_criteria: Seq<Seq<char>>,
    pub steps: Seq<StepView>,
    pub edges: Seq<EdgeView>,
    pub metadata: Seq<(Seq<char>, Seq<char>)>,
}

impl View for PlanStep {
    type V = StepView;

    open spec fn view(&self) -> StepView {
        StepView {
            step_id: self.step_id@,
            title: self.title@,
            kind: self.kind,
            status: self.status,
            depends_on: strings_view(self.depends_on@),
            assigned_agent: opt_string_view(self.assigned_agent),
            inputs_schema_ref: opt_string_view(self.inputs_schema_ref),
            output_schema_ref: opt_string_view(self.output_schema_ref),
            retry_count: self.retry_count,
        }
    }
}

impl View for PlanEdge {
    type V = EdgeView;

    open spec fn view(&self) -> EdgeView {
        EdgeView {
            from_step_id: self.from_step_id@,
            to_step_id: self.to_step_id@,
            condition: opt_string_view(self.condition),
        }
    }
}

pub open spec fn steps_view(v: Seq<PlanStep>) -> Seq<StepView> {
    v.map_values(|s: PlanStep| s@)
}

pub open spec fn edges_view(v: Seq<PlanEdge>) -> Seq<EdgeView> {
    v.map_values(|e: PlanEdge| e@)
}

impl View for PlanDocument {
    type V = PlanView;

    open spec fn view(&self) -> PlanView {
        PlanView {
            plan_id: self.plan_id@,
            goal: self.goal@,
            status: self.status,
            revision: self.revision,
            assumptions: strings_view(self.assumptions@),
            constraints: strings_view(self.constraints@),
            success_criteria: strings_view(self.success_criteria@),
            steps: steps_view(self.steps@),
            edges: edges_view(self.edges@),
            metadata: metadata_view(self.metadata@),
        }
    }
}

/// Request to record the result of one step.
pub struct StepResultRequest {
    pub plan: PlanDocument,
    pub step_id: String,
    pub status: PlanStepStatus,
}

/// Request to evaluate a plan's completion.
pub struct CompletionCheckRequest {
    pub plan: PlanDocument,
}

/// Request to create a plan for a goal.
pub struct CreatePlanRequest {
    pub goal: String,
    pub assumptions: Vec<String>,
    pub constraints: Vec<String>,
    pub success_criteria: Vec<String>,
}

/// Request to revise a plan.
pub struct RevisePlanRequest {
    pub plan: PlanDocument,
    pub reason: String,
    pub context: Option<String>,
}

/// Request for the next actions of a plan.
pub struct NextActionsRequest {
    pub plan: PlanDocument,
    pub context: Option<String>,
}

// ---------------------------------------------------------------------------
// Validation
// ---------------------------------------------------------------------------

pub open spec fn step_ids(steps: Seq<StepView>) -> Seq<Seq<char>> {
    steps.map_values(|s: StepView| s.step_id)
}

/// `prefix` + `id` + a closing backtick.
pub open spec fn quoted(prefix: Seq<char>, id: Seq<char>) -> Seq<char> {
    prefix + id + "`"@
}

pub open spec fn titled(id: Seq<char>, rest: Seq<char>) -> Seq<char> {
    "step `"@ + id + rest
}

/// The first-pass check of one step, given the steps before it.
pub open spec fn step_shape_step() -> spec_fn(Seq<StepView>, StepView) -> Option<Seq<char>> {
    |prev: Seq<StepView>, s: StepView|
        if is_blank(s.step_id) {
            Some("step_id must not be empty"@)
        } else if step_ids(prev).contains(s.step_id) {
            Some(quoted("duplicate step_id `"@, s.step_id))
        } else if is_blank(s.title) {
            Some(titled(s.step_id, "` title must not be empty"@))
        } else if exists|k: int| 0 <= k < s.depends_on.len() && is_blank(#[trigger] s.depends_on[k]) {
            Some(titled(s.step_id, "` has an empty dependency"@))
        } else {
            None
        }
}

/// The check of one edge against the plan's step ids.
pub open spec fn edge_check(e: EdgeView, ids: Seq<Seq<char>>) -> Option<Seq<char>> {
    if !ids.contains(e.from_step_id) {
        Some(quoted("edge references unknown from_step_id `"@, e.from_step_id))
    } else if !ids.contains(e.to_step_id) {
        Some(quoted("edge references unknown to_step_id `"@, e.to_step_id))
    } else if e.from_step_id == e.to_step_id {
        Some("edge cannot connect a step to itself"@)
    } else {
        None
    }
}

pub open spec fn edge_step(ids: Seq<Seq<char>>) -> spec_fn(Seq<EdgeView>, EdgeView) -> Option<Seq<char>> {
    |prev: Seq<EdgeView>, e: EdgeView| edge_check(e, ids)
}

/// The check of one dependency of the step `owner`.
pub open spec fn dependency_step(owner: Seq<char>, ids: Seq<Seq<char>>) -> spec_fn(Seq<Seq<char>>, Seq<char>) -> Option<Seq<char>> {
    |prev: Seq<Seq<char>>, d: Seq<char>|
        if !ids.contains(d) {
            Some(titled(owner, "` depends on unknown step `"@ + d + "`"@))
        } else if d == owner {
            Some(titled(owner, "` cannot depend on itself"@))
        } else {
            None
        }
}

pub open spec fn dependencies_step(ids: Seq<Seq<char>>) -> spec_fn(Seq<StepView>, StepView) -> Option<Seq<char>> {
    |prev: Seq<StepView>, s: StepView| scan(s.depends_on, dependency_step(s.step_id, ids))
}

/// Everything `validate_plan` checks, in its order; the message of the first
/// problem, or `None` for a valid plan.
pub open spec fn plan_check(p: PlanView) -> Option<Seq<char>> {
    let ids = step_ids(p.steps);
    if is_blank(p.plan_id) {
        Some("plan_id must not be empty"@)
    } else if is_blank(p.goal) {
        Some("goal must not be empty"@)
    } else if p.success_criteria.len() == 0 {
        Some("success_criteria must not be empty"@)
    } else if scan(p.steps, step_shape_step()) is Some {
        scan(p.steps, step_shape_step())
    } else if scan(p.edges, edge_step(ids)) is Some {
        scan(p.edges, edge_step(ids))
    } else {
        scan(p.steps, dependencies_step(ids))
    }
}

pub open spec fn validation_reports(r: Result<(), PlanningError>, c: Option<Seq<char>>) -> bool {
    match r {
        Ok(_) => c is None,
        Err(e) => c matches Some(m) && e@ == PlanningErrorView::Validation(m),
    }
}

/// `prefix` + `id` + `suffix` as a new string.
fn joined(prefix: &str, id: &str, suffix: &str) -> (r: String)
    ensures
        r@ == prefix@ + id@ + suffix@,
{
    let mut s = String::from_str(prefix);
    s.append(id);
    s.append(suffix);
    s
}

fn validation_error(message: String) -> (r: Result<(), PlanningError>)
    ensures
        r matches Err(e) && e@ == PlanningErrorView::Validation(message@),
{
    Err(PlanningError::Validation(message))
}

/// Whether some entry of `v` is blank.
fn any_blank(v: &Vec<String>) -> (r: bool)
    ensures
        r == exists|k: int| 0 <= k < v@.len() && is_blank(#[trigger] strings_view(v@)[k]),
{
    let mut i: usize = 0;
    while i < v.len()
        invariant
            i <= v.len(),
            forall|k: int| 0 <= k < i ==> !is_blank(#[trigger] strings_view(v@)[k]),
        decreases v.len() - i,
    {
        if str_is_blank(v[i].as_str()) {
            assert(is_blank(strings_view(v@)[i as int]));
            return true;
        }
        i = i + 1;
    }
    false
}

/// Whether `s` equals one of the first `end` ids of `steps`.
fn step_id_among(steps: &Vec<PlanStep>, end: usize, s: &str) -> (r: bool)
    requires
        end <= steps.len(),
    ensures
        r == step_ids(steps_view(steps@)).take(end as int).contains(s@),
{
    let ghost ids = step_ids(steps_view(steps@)).take(end as int);
    let mut i: usize = 0;
    while i < end
        invariant
            i <= end,
            end <= steps.len(),
            ids == step_ids(steps_view(steps@)).take(end as int),
            forall|k: int| 0 <= k < i ==> ids[k] != s@,
        decreases end - i,
    {
        if str_equal(steps[i].step_id.as_str(), s) {
            assert(ids[i as int] == s@);
            return true;
        }
        i = i + 1;
    }
    false
}

/// Checks one edge against the plan's step ids.
fn validate_edge(edge: &PlanEdge, steps: &Vec<PlanStep>) -> (r: Result<(), PlanningError>)
    ensures
        validation_reports(r, edge_check(edge@, step_ids(steps_view(steps@)))),
{
    proof {
        assert(step_ids(steps_view(steps@)).take(steps.len() as int) =~= step_ids(steps_view(steps@)));
    }
    if !step_id_among(steps, steps.len(), edge.from_step_id.as_str()) {
        return validation_error(joined("edge references unknown from_step_id `", edge.from_step_id.as_str(), "`"));
    }
    if !step_id_among(steps, steps.len(), edge.to_step_id.as_str()) {
        return validation_error(joined("edge references unknown to_step_id `", edge.to_step_id.as_str(), "`"));
    }
    if str_equal(edge.from_step_id.as_str(), edge.to_step_id.as_str()) {
        return validation_error(String::from_str("edge cannot connect a step to itself"));
    }
    Ok(())
}

/// Checks the dependencies of one step against the plan's step ids.
fn validate_dependencies(step: &PlanStep, steps: &Vec<PlanStep>) -> (r: Result<(), PlanningError>)
    ensures
        validation_reports(r, scan(step@.depends_on, dependency_step(step@.step_id, step_ids(steps_view(steps@))))),
{
    let ghost ids = step_ids(steps_view(steps@));
    let ghost deps = step@.depends_on;
    let ghost f = dependency_step(step@.step_id, ids);
    proof {
        assert(ids.take(steps.len() as int) =~= ids);
    }
    let mut i: usize = 0;
    while i < step.depends_on.len()
        invariant
            i <= step.depends_on.len(),
            ids == step_ids(steps_view(steps@)),
            ids.take(steps.len() as int) == ids,
            deps == step@.depends_on,
            f == dependency_step(step@.step_id, ids),
            scan(deps.take(i as int), f) is None,
        decreases step.depends_on.len() - i,
    {
        let dependency = &step.depends_on[i];
        proof {
            lemma_scan_step(deps, i as int, f);
            assert(deps[i as int] == dependency@);
        }
        if !step_id_among(steps, steps.len(), dependency.as_str()) {
            let mut m = joined("step `", step.step_id.as_str(), "` depends on unknown step `");
            m.append(dependency.as_str());
            m.append("`");
            proof {
                lemma_scan_stop(deps, i as int, f);
                assert(m@ =~= titled(step@.step_id, "` depends on unknown step `"@ + dependency@ + "`"@));
            }
            return validation_error(m);
        }
        if str_equal(dependency.as_str(), step.step_id.as_str()) {
            proof {
                lemma_scan_stop(deps, i as int, f);
            }
            return validation_error(joined("step `", step.step_id.as_str(), "` cannot depend on itself"));
        }
        i = i + 1;
    }
    proof {
        lemma_scan_full(deps, f);
    }
    Ok(())
}

/// Validates a plan: non-blank plan id and goal, at least one success
/// criterion, well-formed unique steps, edges between distinct known steps,
/// and dependencies on other known steps. Reports the first problem.
pub fn validate_plan(plan: &PlanDocument) -> (r: Result<(), PlanningError>)
    ensures
        validation_reports(r, plan_check(plan@)),
{
    if str_is_blank(plan.plan_id.as_str()) {
        return validation_error(String::from_str("plan_id must not be empty"));
    }
    if str_is_blank(plan.goal.as_str()) {
        return validation_error(String::from_str("goal must not be empty"));
    }
    if plan.success_criteria.len() == 0 {
        return validation_error(String::from_str("success_criteria must not be empty"));
    }
    let ghost steps = plan@.steps;
    let ghost shape = step_shape_step();
    let mut i: usize = 0;
    while i < plan.steps.len()
        invariant
            i <= plan.steps.len(),
            steps == plan@.steps,
            steps == steps_view(plan.steps@),
            shape == step_shape_step(),
            scan(steps.take(i as int), shape) is None,
            !is_blank(plan@.plan_id),
            !is_blank(plan@.goal),
            plan@.success_criteria.len() > 0,
        decreases plan.steps.len() - i,
    {
        let step = &plan.steps[i];
        proof {
            lemma_scan_step(steps, i as int, shape);
            assert(steps[i as int] == step@);
            assert(step_ids(steps.take(i as int)) =~= step_ids(steps_view(plan.steps@)).take(i as int));
        }
        let blank_id = str_is_blank(step.step_id.as_str());
        let duplicate = !blank_id && step_id_among(&plan.steps, i, step.step_id.as_str());
        let blank_title = !blank_id && !duplicate && str_is_blank(step.title.as_str());
        let blank_dependency = !blank_id && !duplicate && !blank_title && any_blank(&step.depends_on);
        if blank_id || duplicate || blank_title || blank_dependency {
            proof {
                let prev = steps.take(i as int);
                let st = steps[i as int];
                if blank_id {
                    assert(is_blank(st.step_id));
                } else if duplicate {
                    assert(step_ids(prev).contains(st.step_id));
                } else if blank_title {
                    assert(is_blank(st.title));
                } else {
                    assert(st.depends_on == strings_view(step.depends_on@));
                    assert(exists|k: int| 0 <= k < st.depends_on.len() && is_blank(#[trigger] st.depends_on[k]));
                }
                assert(shape(prev, st) is Some);
                lemma_scan_stop(steps, i as int, shape);
            }
            if blank_id {
                return validation_error(String::from_str("step_id must not be empty"));
            } else if duplicate {
                return validation_error(joined("duplicate step_id `", step.step_id.as_str(), "`"));
            } else if blank_title {
                return validation_error(joined("step `", step.step_id.as_str(), "` title must not be empty"));
            } else {
                return validation_error(joined("step `", step.step_id.as_str(), "` has an empty dependency"));
            }
        }
        i = i + 1;
    }
    proof {
        lemma_scan_full(steps, shape);
    }
    let ghost ids = step_ids(steps);
    let ghost edges = plan@.edges;
    let ghost es = edge_step(ids);
    let mut j: usize = 0;
    while j < plan.edges.len()
        invariant
            j <= plan.edges.len(),
            steps == plan@.steps,
            steps == steps_view(plan.steps@),
            ids == step_ids(steps),
            edges == plan@.edges,
            edges == edges_view(plan.edges@),
            es == edge_step(ids),
            scan(steps, step_shape_step()) is None,
            scan(edges.take(j as int), es) is None,
            !is_blank(plan@.plan_id),
            !is_blank(plan@.goal),
            plan@.success_criteria.len() > 0,
        decreases plan.edges.len() - j,
    {
        proof {
            lemma_scan_step(edges, j as int, es);
            assert(edges[j as int] == plan.edges@[j as int]@);
        }
        if let Err(e) = validate_edge(&plan.edges[j], &plan.steps) {
            proof {
                lemma_scan_stop(edges, j as int, es);
            }
            return Err(e);
        }
        j = j + 1;
    }
    proof {
        lemma_scan_full(edges, es);
    }
    let ghost ds = dependencies_step(ids);
    let mut k: usize = 0;
    while k < plan.steps.len()
        invariant
            k <= plan.steps.len(),
            steps == plan@.steps,
            steps == steps_view(plan.steps@),
            ids == step_ids(steps),
            edges == plan@.edges,
            ds == dependencies_step(ids),
            scan(steps, step_shape_step()) is None,
            scan(edges, edge_step(ids)) is None,
            scan(steps.take(k as int), ds) is None,
            !is_blank(plan@.plan_id),
            !is_blank(plan@.goal),
            plan@.success_criteria.len() > 0,
        decreases plan.steps.len() - k,
    {
        proof {
            lemma_scan_step(steps, k as int, ds);
            assert(steps[k as int] == plan.steps@[k as int]@);
        }
        if let Err(e) = validate_dependencies(&plan.steps[k], &plan.steps) {
            proof {
                lemma_scan_stop(steps, k as int, ds);
            }
            return Err(e);
        }
        k = k + 1;
    }
    proof {
        lemma_scan_full(steps, ds);
    }
    Ok(())
}

// ---------------------------------------------------------------------------
// Step transitions
// ---------------------------------------------------------------------------

/// The documented step status transitions.
pub open spec fn transition_allowed(previous: PlanStepStatus, next: PlanStepStatus) -> bool {
    match (previous, next) {
        (PlanStepStatus::Pending, PlanStepStatus::Ready) => true,
        (PlanStepStatus::Ready, PlanStepStatus::Running) => true,
        (PlanStepStatus::Running, PlanStepStatus::Completed) => true,
        (PlanStepStatus::Running, PlanStepStatus::Failed) => true,
        (PlanStepStatus::Running, PlanStepStatus::Blocked) => true,
        (PlanStepStatus::Blocked, PlanStepStatus::Ready) => true,
        (PlanStepStatus::Pending, PlanStepStatus::Skipped) => true,
        (PlanStepStatus::Ready, PlanStepStatus::Skipped) => true,
        (PlanStepStatus::Running, PlanStepStatus::Running) => true,
        (PlanStepStatus::Completed, PlanStepStatus::Completed) => true,
        (PlanStepStatus::Failed, PlanStepStatus::Failed) => true,
        (PlanStepStatus::Skipped, PlanStepStatus::Skipped) => true,
        _ => false,
    }
}

/// The name a status is printed with.
pub open spec fn status_text(s: PlanStepStatus) -> Seq<char> {
    match s {
        PlanStepStatus::Pending => "Pending"@,
        PlanStepStatus::Ready => "Ready"@,
        PlanStepStatus::Running => "Running"@,
        PlanStepStatus::Blocked => "Blocked"@,
        PlanStepStatus::Completed => "Completed"@,
        PlanStepStatus::Failed => "Failed"@,
        PlanStepStatus::Skipped => "Skipped"@,
    }
}

pub open spec fn transition_message(previous: PlanStepStatus, next: PlanStepStatus) -> Seq<char> {
    "illegal plan step transition from `"@ + status_text(previous) + "` to `"@ + status_text(next) + "`"@
}

fn status_name(s: PlanStepStatus) -> (r: &'static str)
    ensures
        r@ == status_text(s),
{
    match s {
        PlanStepStatus::Pending => "Pending",
        PlanStepStatus::Ready => "Ready",
        PlanStepStatus::Running => "Running",
        PlanStepStatus::Blocked => "Blocked",
        PlanStepStatus::Completed => "Completed",
        PlanStepStatus::Failed => "Failed",
        PlanStepStatus::Skipped => "Skipped",
    }
}

/// Accepts exactly the documented step status transitions.
pub fn validate_step_transition(previous: &PlanStepStatus, next: &PlanStepStatus) -> (r: Result<(), PlanningError>)
    ensures
        r is Ok <==> transition_allowed(*previous, *next),
        r is Err ==> (r matches Err(e) && e@ == PlanningErrorView::Validation(transition_message(*previous, *next))),
{
    let allowed = match (*previous, *next) {
        (PlanStepStatus::Pending, PlanStepStatus::Ready) => true,
        (PlanStepStatus::Ready, PlanStepStatus::Running) => true,
        (PlanStepStatus::Running, PlanStepStatus::Completed) => true,
        (PlanStepStatus::Running, PlanStepStatus::Failed) => true,
        (PlanStepStatus::Running, PlanStepStatus::Blocked) => true,
        (PlanStepStatus::Blocked, PlanStepStatus::Ready) => true,
        (PlanStepStatus::Pending, PlanStepStatus::Skipped) => true,
        (PlanStepStatus::Ready, PlanStepStatus::Skipped) => true,
        (PlanStepStatus::Running, PlanStepStatus::Running) => true,
        (PlanStepStatus::Completed, PlanStepStatus::Completed) => true,
        (PlanStepStatus::Failed, PlanStepStatus::Failed) => true,
        (PlanStepStatus::Skipped, PlanStepStatus::Skipped) => true,
        _ => false,
    };
    if allowed {
        Ok(())
    } else {
        let mut m = String::from_str("illegal plan step transition from `");
        m.append(status_name(*previous));
        m.append("` to `");
        m.append(status_name(*next));
        m.append("`");
        Err(PlanningError::Validation(m))
    }
}

/// What each step status can be reached from: a step becomes ready from
/// pending or blocked, starts running only once ready (or keeps running),
/// completes, fails or blocks only while running (completed and failed also
/// stay as they are), is skipped before it runs (or stays skipped), and never
/// goes back to pending. A completed, failed or skipped step moves nowhere
/// else.
pub proof fn law_step_transitions(previous: PlanStepStatus, next: PlanStepStatus)
    ensures
        next == PlanStepStatus::Pending ==> !transition_allowed(previous, next),
        next == PlanStepStatus::Ready ==> (transition_allowed(previous, next) <==> (previous == PlanStepStatus::Pending
            || previous == PlanStepStatus::Blocked)),
        next == PlanStepStatus::Running ==> (transition_allowed(previous, next) <==> (previous == PlanStepStatus::Ready
            || previous == PlanStepStatus::Running)),
        next == PlanStepStatus::Blocked ==> (transition_allowed(previous, next) <==> previous == PlanStepStatus::Running),
        next == PlanStepStatus::Completed ==> (transition_allowed(previous, next) <==> (previous
            == PlanStepStatus::Running || previous == PlanStepStatus::Completed)),
        next == PlanStepStatus::Failed ==> (transition_allowed(previous, next) <==> (previous == PlanStepStatus::Running
            || previous == PlanStepStatus::Failed)),
        next == PlanStepStatus::Skipped ==> (transition_allowed(previous, next) <==> (previous == PlanStepStatus::Pending
            || previous == PlanStepStatus::Ready || previous == PlanStepStatus::Skipped)),
        (previous == PlanStepStatus::Completed || previous == PlanStepStatus::Failed || previous
            == PlanStepStatus::Skipped) ==> (transition_allowed(previous, next) <==> next == previous),
{
}

/// A step status after which no further transition is expected.
pub open spec fn terminal(s: PlanStepStatus) -> bool {
    s == PlanStepStatus::Completed || s == PlanStepStatus::Skipped || s == PlanStepStatus::Failed
}

/// A step status that lets dependent steps become ready.
pub open spec fn satisfying(s: PlanStepStatus) -> bool {
    s == PlanStepStatus::Completed || s == PlanStepStatus::Skipped
}

/// Whether a step status is terminal.
pub fn is_terminal(status: &PlanStepStatus) -> (r: bool)
    ensures
        r == terminal(*status),
{
    match status {
        PlanStepStatus::Completed | PlanStepStatus::Skipped | PlanStepStatus::Failed => true,
        _ => false,
    }
}

/// Whether a step status satisfies a dependency on that step.
pub fn satisfies_dependency(status: &PlanStepStatus) -> (r: bool)
    ensures
        r == satisfying(*status),
{
    match status {
        PlanStepStatus::Completed | PlanStepStatus::Skipped => true,
        _ => false,
    }
}

// ---------------------------------------------------------------------------
// Step results and completion
// ---------------------------------------------------------------------------

/// Index of the first step from `i` on whose id is `id`, or `-1`.
pub open spec fn first_step_index(steps: Seq<StepView>, id: Seq<char>, i: int) -> int
    decreases steps.len() - i,
{
    if i < 0 || i >= steps.len() {
        -1
    } else if steps[i].step_id == id {
        i
    } else {
        first_step_index(steps, id, i + 1)
    }
}

pub open spec fn step_with_status(s: StepView, status: PlanStepStatus) -> StepView {
    StepView {
        step_id: s.step_id,
        title: s.title,
        kind: s.kind,
        status,
        depends_on: s.depends_on,
        assigned_agent: s.assigned_agent,
        inputs_schema_ref: s.inputs_schema_ref,
        output_schema_ref: s.output_schema_ref,
        retry_count: s.retry_count,
    }
}

/// The first step with id `id` (if any) given `status`.
pub open spec fn with_status(steps: Seq<StepView>, id: Seq<char>, status: PlanStepStatus) -> Seq<StepView> {
    let k = first_step_index(steps, id, 0);
    if k < 0 {
        steps
    } else {
        steps.update(k, step_with_status(steps[k], status))
    }
}

/// The status of the last step with id `id`, if any.
pub open spec fn last_status(steps: Seq<StepView>, id: Seq<char>) -> Option<PlanStepStatus>
    decreases steps.len(),
{
    if steps.len() == 0 {
        None
    } else if steps.last().step_id == id {
        Some(steps.last().status)
    } else {
        last_status(steps.drop_last(), id)
    }
}

/// Every dependency names a step whose status satisfies it.
pub open spec fn deps_satisfied(steps: Seq<StepView>, deps: Seq<Seq<char>>) -> bool {
    forall|k: int| 0 <= k < deps.len() ==> (#[trigger] last_status(steps, deps[k]) matches Some(s) && satisfying(s))
}

/// Pending steps whose dependencies are all satisfied become ready.
pub open spec fn promoted(steps: Seq<StepView>) -> Seq<StepView> {
    Seq::new(
        steps.len(),
        |k: int|
            if steps[k].status == PlanStepStatus::Pending && deps_satisfied(steps, steps[k].depends_on) {
                step_with_status(steps[k], PlanStepStatus::Ready)
            } else {
                steps[k]
            },
    )
}

pub open spec fn plan_with_steps(p: PlanView, steps: Seq<StepView>) -> PlanView {
    PlanView {
        plan_id: p.plan_id,
        goal: p.goal,
        status: p.status,
        revision: p.revision,
        assumptions: p.assumptions,
        constraints: p.constraints,
        success_criteria: p.success_criteria,
        steps,
        edges: p.edges,
        metadata: p.metadata,
    }
}

/// Gives step `i` the status `status`.
fn set_step_status(steps: &mut Vec<PlanStep>, i: usize, status: PlanStepStatus)
    requires
        i < old(steps).len(),
    ensures
        final(steps).len() == old(steps).len(),
        steps_view(final(steps)@) == steps_view(old(steps)@).update(i as int, step_with_status(old(steps)@[i as int]@, status)),
        forall|q: int| 0 <= q < final(steps).len() ==> (#[trigger] final(steps)@[q]).step_id@ == old(steps)@[q].step_id@,
        forall|q: int| 0 <= q < final(steps).len() && q != i ==> (#[trigger] final(steps)@[q])@ == old(steps)@[q]@,
{
    let mut step = steps.remove(i);
    step.status = status;
    steps.insert(i, step);
    assert(steps_view(steps@) =~= steps_view(old(steps)@).update(i as int, step_with_status(old(steps)@[i as int]@, status)));
}

/// Index of the first step whose id is `id`, if any.
fn step_index(steps: &Vec<PlanStep>, id: &str) -> (r: Option<usize>)
    ensures
        match r {
            Some(i) => i < steps.len() && first_step_index(steps_view(steps@), id@, 0) == i,
            None => first_step_index(steps_view(steps@), id@, 0) == -1,
        },
{
    let ghost v = steps_view(steps@);
    let mut i: usize = 0;
    while i < steps.len()
        invariant
            i <= steps.len(),
            v == steps_view(steps@),
            first_step_index(v, id@, 0) == first_step_index(v, id@, i as int),
        decreases steps.len() - i,
    {
        if str_equal(steps[i].step_id.as_str(), id) {
            return Some(i);
        }
        i = i + 1;
    }
    None
}

/// The status of the last step with id `id` in `v`, read from `steps` and
/// `statuses`, which agree with `v` on ids and statuses.
fn lookup_status(
    steps: &Vec<PlanStep>,
    statuses: &Vec<PlanStepStatus>,
    id: &str,
    Ghost(v): Ghost<Seq<StepView>>,
) -> (r: Option<PlanStepStatus>)
    requires
        statuses.len() == steps.len(),
        v.len() == steps.len(),
        forall|k: int| 0 <= k < v.len() ==> (#[trigger] v[k]).step_id == steps@[k].step_id@ && v[k].status == statuses@[k],
    ensures
        r == last_status(v, id@),
{
    let mut i: usize = steps.len();
    proof {
        assert(v.take(i as int) =~= v);
    }
    while i > 0
        invariant
            i <= steps.len(),
            statuses.len() == steps.len(),
            v.len() == steps.len(),
            forall|k: int| 0 <= k < v.len() ==> (#[trigger] v[k]).step_id == steps@[k].step_id@ && v[k].status == statuses@[k],
            last_status(v, id@) == last_status(v.take(i as int), id@),
        decreases i,
    {
        proof {
            assert(v.take(i as int).last() == v[i - 1]);
            assert(v.take(i as int).drop_last() =~= v.take(i - 1));
        }
        if str_equal(steps[i - 1].step_id.as_str(), id) {
            return Some(statuses[i - 1]);
        }
        i = i - 1;
    }
    None
}

/// Records a step result: the first step with the request's id gets the new
/// status, then every pending step whose dependencies are all completed or
/// skipped (as the plan now stands) becomes ready.
pub fn record_step_result(req: StepResultRequest) -> (r: Result<PlanDocument, PlanningError>)
    ensures
        r matches Ok(p) && p@ == plan_with_steps(
            req.plan@,
            promoted(with_status(req.plan@.steps, req.step_id@, req.status)),
        ),
{
    let StepResultRequest { plan, step_id, status } = req;
    let mut plan = plan;
    let ghost orig = plan@;
    if let Some(i) = step_index(&plan.steps, step_id.as_str()) {
        set_step_status(&mut plan.steps, i, status);
    }
    let ghost updated = with_status(orig.steps, step_id@, status);
    assert(steps_view(plan.steps@) == updated);
    assert(plan_with_steps(plan@, updated) == plan_with_steps(orig, updated));
    let mut statuses: Vec<PlanStepStatus> = Vec::new();
    let mut j: usize = 0;
    while j < plan.steps.len()
        invariant
            j <= plan.steps.len(),
            statuses.len() == j,
            steps_view(plan.steps@) == updated,
            plan_with_steps(plan@, updated) == plan_with_steps(orig, updated),
            forall|k: int| 0 <= k < j ==> statuses@[k] == plan.steps@[k].status,
        decreases plan.steps.len() - j,
    {
        statuses.push(plan.steps[j].status);
        j = j + 1;
    }
    assert forall|q: int| 0 <= q < updated.len() implies (#[trigger] updated[q]).step_id == plan.steps@[q].step_id@
        && updated[q].status == statuses@[q] by {
        assert(updated[q] == plan.steps@[q]@);
    }
    let ghost target = promoted(updated);
    let mut k: usize = 0;
    while k < plan.steps.len()
        invariant
            k <= plan.steps.len(),
            statuses.len() == plan.steps.len(),
            updated.len() == plan.steps.len(),
            target == promoted(updated),
            plan_with_steps(plan@, updated) == plan_with_steps(orig, updated),
            forall|q: int| 0 <= q < updated.len() ==> (#[trigger] updated[q]).step_id == plan.steps@[q].step_id@ && updated[q].status == statuses@[q],
            forall|q: int| 0 <= q < k ==> steps_view(plan.steps@)[q] == target[q],
            forall|q: int| k <= q < plan.steps.len() ==> steps_view(plan.steps@)[q] == updated[q],
        decreases plan.steps.len() - k,
    {
        assert(steps_view(plan.steps@)[k as int] == plan.steps@[k as int]@);
        let pending = match plan.steps[k].status {
            PlanStepStatus::Pending => true,
            _ => false,
        };
        if pending {
            let mut all = true;
            let mut d: usize = 0;
            let ghost deps = updated[k as int].depends_on;
            while d < plan.steps[k].depends_on.len()
                invariant
                    k < plan.steps.len(),
                    d <= plan.steps@[k as int].depends_on.len(),
                    statuses.len() == plan.steps.len(),
                    updated.len() == plan.steps.len(),
                    deps == updated[k as int].depends_on,
                    deps == strings_view(plan.steps@[k as int].depends_on@),
                    forall|q: int| 0 <= q < updated.len() ==> (#[trigger] updated[q]).step_id == plan.steps@[q].step_id@ && updated[q].status == statuses@[q],
                    all == (forall|e: int| 0 <= e < d ==> (#[trigger] last_status(updated, deps[e]) matches Some(s) && satisfying(s))),
                decreases plan.steps@[k as int].depends_on.len() - d,
            {
                assert(deps[d as int] == plan.steps@[k as int].depends_on@[d as int]@);
                let found = lookup_status(&plan.steps, &statuses, plan.steps[k].depends_on[d].as_str(), Ghost(updated));
                let ok = match found {
                    Some(s) => satisfies_dependency(&s),
                    None => false,
                };
                assert(ok == (last_status(updated, deps[d as int]) matches Some(s) && satisfying(s)));
                all = all && ok;
                d = d + 1;
            }
            assert(all == deps_satisfied(updated, updated[k as int].depends_on));
            if all {
                set_step_status(&mut plan.steps, k, PlanStepStatus::Ready);
            }
        }
        k = k + 1;
    }
    assert(steps_view(plan.steps@) =~= target);
    Ok(plan)
}

/// Evaluates completion: any failed step leaves the goal unsatisfied; all
/// steps completed or skipped satisfy it; otherwise it is incomplete.
pub fn evaluate_completion(req: &CompletionCheckRequest) -> (r: Result<CompletionState, PlanningError>)
    ensures
        r matches Ok(c) && c == (if exists|k: int| 0 <= k < req.plan@.steps.len() && (#[trigger] req.plan@.steps[k]).status
            == PlanStepStatus::Failed {
            CompletionState::Unsatisfied
        } else if forall|k: int| 0 <= k < req.plan@.steps.len() ==> terminal(#[trigger] req.plan@.steps[k].status) {
            CompletionState::Satisfied
        } else {
            CompletionState::Incomplete
        }),
{
    let steps = &req.plan.steps;
    let mut i: usize = 0;
    while i < steps.len()
        invariant
            i <= steps.len(),
            steps == &req.plan.steps,
            forall|k: int| 0 <= k < i ==> (#[trigger] req.plan@.steps[k]).status != PlanStepStatus::Failed,
        decreases steps.len() - i,
    {
        assert(req.plan@.steps[i as int] == steps@[i as int]@);
        if let PlanStepStatus::Failed = steps[i].status {
            return Ok(CompletionState::Unsatisfied);
        }
        i = i + 1;
    }
    let mut j: usize = 0;
    while j < steps.len()
        invariant
            j <= steps.len(),
            steps == &req.plan.steps,
            forall|k: int| 0 <= k < steps.len() ==> (#[trigger] req.plan@.steps[k]).status != PlanStepStatus::Failed,
            forall|k: int| 0 <= k < j ==> terminal(#[trigger] req.plan@.steps[k].status),
        decreases steps.len() - j,
    {
        assert(req.plan@.steps[j as int] == steps@[j as int]@);
        if !is_terminal(&steps[j].status) {
            return Ok(CompletionState::Incomplete);
        }
        j = j + 1;
    }
    Ok(CompletionState::Satisfied)
}

// ---------------------------------------------------------------------------
// Fixture
// ---------------------------------------------------------------------------

// ---------------------------------------------------------------------------
// Laws of step results
// ---------------------------------------------------------------------------

/// `b` is `a` with possibly other step statuses and nothing else changed.
pub open spec fn same_but_status(a: Seq<StepView>, b: Seq<StepView>) -> bool {
    &&& a.len() == b.len()
    &&& forall|k: int| 0 <= k < a.len() ==> (#[trigger] b[k]) == step_with_status(a[k], b[k].status)
}

proof fn lemma_same_but_status_drop_last(a: Seq<StepView>, b: Seq<StepView>)
    requires
        same_but_status(a, b),
        a.len() > 0,
    ensures
        same_but_status(a.drop_last(), b.drop_last()),
        b.last() == step_with_status(a.last(), b.last().status),
{
    assert forall|k: int| 0 <= k < a.drop_last().len() implies (#[trigger] b.drop_last()[k]) == step_with_status(
        a.drop_last()[k],
        b.drop_last()[k].status,
    ) by {
        assert(b[k] == step_with_status(a[k], b[k].status));
    }
    assert(b[b.len() - 1] == step_with_status(a[a.len() - 1], b[b.len() - 1].status));
}

proof fn lemma_same_but_status_ids(a: Seq<StepView>, b: Seq<StepView>)
    requires
        same_but_status(a, b),
    ensures
        step_ids(a) == step_ids(b),
{
    assert forall|k: int| 0 <= k < a.len() implies step_ids(a)[k] == step_ids(b)[k] by {
        assert(b[k] == step_with_status(a[k], b[k].status));
    }
    assert(step_ids(a) =~= step_ids(b));
}

proof fn lemma_same_but_status_trans(a: Seq<StepView>, b: Seq<StepView>, c: Seq<StepView>)
    requires
        same_but_status(a, b),
        same_but_status(b, c),
    ensures
        same_but_status(a, c),
{
    assert forall|k: int| 0 <= k < a.len() implies (#[trigger] c[k]) == step_with_status(a[k], c[k].status) by {
        assert(b[k] == step_with_status(a[k], b[k].status));
        assert(c[k] == step_with_status(b[k], c[k].status));
    }
}

proof fn lemma_shape_ignores_status(a: Seq<StepView>, b: Seq<StepView>)
    requires
        same_but_status(a, b),
    ensures
        scan(a, step_shape_step()) == scan(b, step_shape_step()),
    decreases a.len(),
{
    if a.len() > 0 {
        lemma_same_but_status_drop_last(a, b);
        lemma_same_but_status_ids(a.drop_last(), b.drop_last());
        lemma_shape_ignores_status(a.drop_last(), b.drop_last());
        let (x, y) = (a.last(), b.last());
        assert(x.step_id == y.step_id && x.title == y.title && x.depends_on == y.depends_on);
        assert(step_shape_step()(a.drop_last(), x) == step_shape_step()(b.drop_last(), y));
    }
}

proof fn lemma_dependencies_ignore_status(a: Seq<StepView>, b: Seq<StepView>, ids: Seq<Seq<char>>)
    requires
        same_but_status(a, b),
    ensures
        scan(a, dependencies_step(ids)) == scan(b, dependencies_step(ids)),
    decreases a.len(),
{
    if a.len() > 0 {
        lemma_same_but_status_drop_last(a, b);
        lemma_dependencies_ignore_status(a.drop_last(), b.drop_last(), ids);
    }
}

proof fn lemma_recorded_same_but_status(steps: Seq<StepView>, id: Seq<char>, status: PlanStepStatus)
    ensures
        same_but_status(steps, with_status(steps, id, status)),
        same_but_status(with_status(steps, id, status), promoted(with_status(steps, id, status))),
        same_but_status(steps, promoted(with_status(steps, id, status))),
{
    let w = with_status(steps, id, status);
    let p = promoted(w);
    let i = first_step_index(steps, id, 0);
    lemma_first_step_index_range(steps, id, 0);
    assert(w.len() == steps.len());
    assert forall|k: int| 0 <= k < steps.len() implies (#[trigger] w[k]) == step_with_status(steps[k], w[k].status) by {
        if i >= 0 && k == i {
            assert(w[k] == step_with_status(steps[k], status));
        } else {
            assert(w[k] == steps[k]);
        }
    }
    assert forall|k: int| 0 <= k < w.len() implies (#[trigger] p[k]) == step_with_status(w[k], p[k].status) by {}
    lemma_same_but_status_trans(steps, w, p);
}

/// Recording a step result never changes what plan validation reports:
/// validation looks at ids, titles, dependencies and edges, and a result
/// only changes step statuses.
pub proof fn law_step_result_keeps_validation(plan: PlanView, step_id: Seq<char>, status: PlanStepStatus)
    ensures
        plan_check(plan_with_steps(plan, promoted(with_status(plan.steps, step_id, status)))) == plan_check(plan),
{
    let after = promoted(with_status(plan.steps, step_id, status));
    lemma_recorded_same_but_status(plan.steps, step_id, status);
    lemma_same_but_status_ids(plan.steps, after);
    lemma_shape_ignores_status(plan.steps, after);
    lemma_dependencies_ignore_status(plan.steps, after, step_ids(plan.steps));
}

/// The step named by a recorded result keeps the recorded status, unless
/// the recorded status is `Pending` (which promotion may turn into `Ready`).
pub proof fn law_recorded_status_sticks(plan: PlanView, step_id: Seq<char>, status: PlanStepStatus)
    requires
        status != PlanStepStatus::Pending,
        first_step_index(plan.steps, step_id, 0) >= 0,
    ensures
        promoted(with_status(plan.steps, step_id, status))[first_step_index(plan.steps, step_id, 0)].status == status,
{
    let k = first_step_index(plan.steps, step_id, 0);
    lemma_first_step_index_range(plan.steps, step_id, 0);
    let w = with_status(plan.steps, step_id, status);
    assert(w[k].status == status);
}

proof fn lemma_first_step_index_range(steps: Seq<StepView>, id: Seq<char>, i: int)
    requires
        0 <= i,
    ensures
        first_step_index(steps, id, i) == -1 || (i <= first_step_index(steps, id, i) < steps.len()),
    decreases steps.len() - i,
{
    if i < steps.len() && steps[i].step_id != id {
        lemma_first_step_index_range(steps, id, i + 1);
    }
}


pub open spec fn basic_plan_view() -> PlanView {
    PlanView {
        plan_id: "plan-basic"@,
        goal: "Investigate and summarize an issue"@,
        status: PlanStatus::Active,
        revision: 1,
        assumptions: seq!["logs are available"@],
        constraints: seq!["stay deterministic"@],
        success_criteria: seq!["deliver a summary"@],
        steps: seq![
            StepView {
                step_id: "research"@,
                title: "Collect evidence"@,
                kind: PlanStepKind::Research,
                status: PlanStepStatus::Ready,
                depends_on: Seq::empty(),
                assigned_agent: None,
                inputs_schema_ref: None,
                output_schema_ref: Some("schema://evidence"@),
                retry_count: 0,
            },
            StepView {
                step_id: "review"@,
                title: "Review findings"@,
                kind: PlanStepKind::Review,
                status: PlanStepStatus::Pending,
                depends_on: seq!["research"@],
                assigned_agent: Some("analyst"@),
                inputs_schema_ref: Some("schema://evidence"@),
                output_schema_ref: Some("schema://report"@),
                retry_count: 0,
            },
        ],
        edges: seq![EdgeView { from_step_id: "research"@, to_step_id: "review"@, condition: None }],
        metadata: Seq::empty(),
    }
}

fn one_string(s: &str) -> (r: Vec<String>)
    ensures
        strings_view(r@) == seq![s@],
{
    let mut v: Vec<String> = Vec::new();
    v.push(String::from_str(s));
    assert(strings_view(v@) =~= seq![s@]);
    v
}

/// A small valid two-step plan: research, then a review that depends on it.
pub fn basic_plan_fixture() -> (r: PlanDocument)
    ensures
        r@ == basic_plan_view(),
{
    let research = PlanStep {
        step_id: String::from_str("research"),
        title: String::from_str("Collect evidence"),
        kind: PlanStepKind::Research,
        status: PlanStepStatus::Ready,
        depends_on: Vec::new(),
        assigned_agent: None,
        inputs_schema_ref: None,
        output_schema_ref: Some(String::from_str("schema://evidence")),
        retry_count: 0,
    };
    let review = PlanStep {
        step_id: String::from_str("review"),
        title: String::from_str("Review findings"),
        kind: PlanStepKind::Review,
        status: PlanStepStatus::Pending,
        depends_on: one_string("research"),
        assigned_agent: Some(String::from_str("analyst")),
        inputs_schema_ref: Some(String::from_str("schema://evidence")),
        output_schema_ref: Some(String::from_str("schema://report")),
        retry_count: 0,
    };
    let mut steps: Vec<PlanStep> = Vec::new();
    steps.push(research);
    steps.push(review);
    let mut edges: Vec<PlanEdge> = Vec::new();
    edges.push(
        PlanEdge {
            from_step_id: String::from_str("research"),
            to_step_id: String::from_str("review"),
            condition: None,
        },
    );
    let r = PlanDocument {
        plan_id: String::from_str("plan-basic"),
        goal: String::from_str("Investigate and summarize an issue"),
        status: PlanStatus::Active,
        revision: 1,
        assumptions: one_string("logs are available"),
        constraints: one_string("stay deterministic"),
        success_criteria: one_string("deliver a summary"),
        steps,
        edges,
        metadata: Vec::new(),
    };
    assert(strings_view(r.steps@[0].depends_on@) =~= Seq::<Seq<char>>::empty());
    assert(steps_view(r.steps@) =~= basic_plan_view().steps);
    assert(edges_view(r.edges@) =~= basic_plan_view().edges);
    assert(metadata_view(r.metadata@) =~= Seq::<(Seq<char>, Seq<char>)>::empty());
    r
}

} // verus!
