//! Delegation of subtasks to other agents: decisions, handoff envelopes,
//! their validation, and the deterministic merge of subtask results.

use vstd::prelude::*;

use crate::cap_types::strings_view;
use crate::text::{decimal, is_blank, str_is_blank, str_trim, trimmed, u64_to_decimal};

verus! {

/// How a goal is delegated.
#[derive(Clone, Copy, Debug, PartialEq, Eq, Structural)]
pub enum DelegationMode {
    /// Handle the goal without delegating (serialized as `none`).
    NoDelegation,
    Single,
    Parallel,
    MapReduce,
}

/// How subtask results are merged.
#[derive(Clone, Copy, Debug, PartialEq, Eq, Structural)]
pub enum MergePolicy {
    FirstSuccess,
    CollectAll,
    MajorityVote,
    WeightedMerge,
    ReducerArtifact,
}

/// Which context a subtask may see.
#[derive(Clone, Copy, Debug, PartialEq, Eq, Structural)]
pub enum HandoffContextScope {
    ExplicitPackageOnly,
    ParentTaskOnly,
    SharedMemoryAndArtifacts,
}

impl Default for HandoffContextScope {
    fn default() -> (r: Self)
        ensures
            r == HandoffContextScope::ExplicitPackageOnly,
    {
        HandoffContextScope::ExplicitPackageOnly
    }
}

/// When a subtask's result comes back.
#[derive(Clone, Copy, Debug, PartialEq, Eq, Structural)]
pub enum HandoffReturnPolicy {
    Sync,
    FirstReturn,
    CollectAll,
    Async,
}

impl Default for HandoffReturnPolicy {
    fn default() -> (r: Self)
        ensures
            r == HandoffReturnPolicy::Sync,
    {
        HandoffReturnPolicy::Sync
    }
}

/// Whether and how to delegate, and to whom.
#[derive(Debug, PartialEq, Eq)]
pub struct DelegationDecision {
    pub mode: DelegationMode,
    pub target_agents: Vec<String>,
    pub merge_policy: MergePolicy,
    pub rationale: String,
}

/// A subtask handed to another agent.
#[derive(Debug, PartialEq, Eq)]
pub struct SubtaskEnvelope {
    pub subtask_id: String,
    pub parent_run_id: String,
    pub correlation_id: String,
    pub source_agent_id: String,
    pub target_agent: String,
    pub tool_id: String,
    pub goal: String,
    pub context_package_ref: String,
    pub context_scope: HandoffContextScope,
    pub expected_output_schema: String,
    pub permissions_profile: String,
    pub deadline: String,
    pub return_policy: HandoffReturnPolicy,
}

/// The result a subtask reports back.
#[derive(Debug, PartialEq, Eq)]
pub struct SubtaskResultEnvelope {
    pub subtask_id: String,
    pub correlation_id: String,
    pub source_agent_id: String,
    pub target_agent_id: String,
    pub tool_id: String,
    pub status: String,
    pub output_artifact_ref: String,
    pub output_schema_ref: String,
    pub notes: Vec<String>,
}

/// Handle of a started subtask.
#[derive(Debug, PartialEq, Eq)]
pub struct DelegationHandle {
    pub subtask_id: String,
    pub target_agent: String,
}

/// Outcome of merging subtask results.
#[derive(Debug, PartialEq, Eq)]
pub struct DelegationMergeResult {
    pub accepted_artifact_refs: Vec<String>,
    pub summary: String,
}

/// Request to decide on delegation.
#[derive(Debug, PartialEq, Eq)]
pub struct DelegationRequest {
    pub goal: String,
    pub candidate_agents: Vec<String>,
}

/// Request to start a subtask.
#[derive(Debug, PartialEq, Eq)]
pub struct StartSubtaskRequest {
    pub envelope: SubtaskEnvelope,
}

/// Request to merge subtask results.
#[derive(Debug, PartialEq, Eq)]
pub struct MergeSubtaskResultRequest {
    pub merge_policy: MergePolicy,
    pub results: Vec<SubtaskResultEnvelope>,
}

/// Delegation failure.
#[derive(Clone, Debug, PartialEq, Eq)]
pub enum DelegationError {
    Validation(String),
    Provider(String),
}

pub enum DelegationErrorView {
    Validation(Seq<char>),
    Provider(Seq<char>),
}

impl View for DelegationError {
    type V = DelegationErrorView;

    open spec fn view(&self) -> DelegationErrorView {
        match self {
            DelegationError::Validation(m) => DelegationErrorView::Validation(m@),
            DelegationError::Provider(m) => DelegationErrorView::Provider(m@),
        }
    }
}

/// Something that decides on, starts and merges delegated subtasks.
pub trait DelegationProvider {
    fn choose_delegate(&self, req: DelegationRequest) -> Result<DelegationDecision, DelegationError>;

    fn start_subtask(&self, req: StartSubtaskRequest) -> Result<DelegationHandle, DelegationError>;

    fn merge_result(&self, req: MergeSubtaskResultRequest) -> Result<DelegationMergeResult, DelegationError>;
}

pub open spec fn delegation_reports(r: Result<(), DelegationError>, c: Option<Seq<char>>) -> bool {
    match r {
        Ok(_) => c is None,
        Err(e) => c matches Some(m) && e@ == DelegationErrorView::Validation(m),
    }
}

fn delegation_error(message: &str) -> (r: Result<(), DelegationError>)
    ensures
        r matches Err(e) && e@ == DelegationErrorView::Validation(message@),
{
    Err(DelegationError::Validation(String::from_str(message)))
}

fn empty_field(label: &str) -> (r: Result<(), DelegationError>)
    ensures
        r matches Err(e) && e@ == DelegationErrorView::Validation(label@ + " must not be empty"@),
{
    let mut m = String::from_str(label);
    m.append(" must not be empty");
    Err(DelegationError::Validation(m))
}

/// What `validate_decision` checks: a rationale, and target agents exactly
/// when the mode delegates.
pub open spec fn decision_check(d: &DelegationDecision) -> Option<Seq<char>> {
    if is_blank(d.rationale@) {
        Some("delegation rationale must not be empty"@)
    } else if d.mode == DelegationMode::NoDelegation && d.target_agents@.len() > 0 {
        Some("delegation mode `none` cannot include target agents"@)
    } else if d.mode != DelegationMode::NoDelegation && d.target_agents@.len() == 0 {
        Some("delegation target_agents must not be empty"@)
    } else {
        None
    }
}

/// Validates a delegation decision.
pub fn validate_decision(decision: &DelegationDecision) -> (r: Result<(), DelegationError>)
    ensures
        delegation_reports(r, decision_check(decision)),
{
    if str_is_blank(decision.rationale.as_str()) {
        return delegation_error("delegation rationale must not be empty");
    }
    match decision.mode {
        DelegationMode::NoDelegation => {
            if decision.target_agents.len() > 0 {
                return delegation_error("delegation mode `none` cannot include target agents");
            }
        },
        _ => {
            if decision.target_agents.len() == 0 {
                return delegation_error("delegation target_agents must not be empty");
            }
        },
    }
    Ok(())
}

pub open spec fn missing(label: Seq<char>) -> Option<Seq<char>> {
    Some(label + " must not be empty"@)
}

/// What `validate_subtask_envelope` checks: every text field non-blank, in
/// field order.
pub open spec fn envelope_check(e: &SubtaskEnvelope) -> Option<Seq<char>> {
    if is_blank(e.subtask_id@) {
        missing("subtask_id"@)
    } else if is_blank(e.parent_run_id@) {
        missing("parent_run_id"@)
    } else if is_blank(e.correlation_id@) {
        missing("correlation_id"@)
    } else if is_blank(e.source_agent_id@) {
        missing("source_agent_id"@)
    } else if is_blank(e.target_agent@) {
        missing("target_agent"@)
    } else if is_blank(e.tool_id@) {
        missing("tool_id"@)
    } else if is_blank(e.goal@) {
        missing("goal"@)
    } else if is_blank(e.context_package_ref@) {
        missing("context_package_ref"@)
    } else if is_blank(e.expected_output_schema@) {
        missing("expected_output_schema"@)
    } else if is_blank(e.permissions_profile@) {
        missing("permissions_profile"@)
    } else if is_blank(e.deadline@) {
        missing("deadline"@)
    } else {
        None
    }
}

/// Validates a subtask envelope.
pub fn validate_subtask_envelope(envelope: &SubtaskEnvelope) -> (r: Result<(), DelegationError>)
    ensures
        delegation_reports(r, envelope_check(envelope)),
{
    if str_is_blank(envelope.subtask_id.as_str()) {
        return empty_field("subtask_id");
    }
    if str_is_blank(envelope.parent_run_id.as_str()) {
        return empty_field("parent_run_id");
    }
    if str_is_blank(envelope.correlation_id.as_str()) {
        return empty_field("correlation_id");
    }
    if str_is_blank(envelope.source_agent_id.as_str()) {
        return empty_field("source_agent_id");
    }
    if str_is_blank(envelope.target_agent.as_str()) {
        return empty_field("target_agent");
    }
    if str_is_blank(envelope.tool_id.as_str()) {
        return empty_field("tool_id");
    }
    if str_is_blank(envelope.goal.as_str()) {
        return empty_field("goal");
    }
    if str_is_blank(envelope.context_package_ref.as_str()) {
        return empty_field("context_package_ref");
    }
    if str_is_blank(envelope.expected_output_schema.as_str()) {
        return empty_field("expected_output_schema");
    }
    if str_is_blank(envelope.permissions_profile.as_str()) {
        return empty_field("permissions_profile");
    }
    if str_is_blank(envelope.deadline.as_str()) {
        return empty_field("deadline");
    }
    Ok(())
}

/// What `validate_subtask_result_envelope` checks: every identifying text
/// field non-blank, in field order.
pub open spec fn result_envelope_check(e: &SubtaskResultEnvelope) -> Option<Seq<char>> {
    if is_blank(e.subtask_id@) {
        missing("subtask_id"@)
    } else if is_blank(e.correlation_id@) {
        missing("correlation_id"@)
    } else if is_blank(e.source_agent_id@) {
        missing("source_agent_id"@)
    } else if is_blank(e.target_agent_id@) {
        missing("target_agent_id"@)
    } else if is_blank(e.tool_id@) {
        missing("tool_id"@)
    } else if is_blank(e.status@) {
        missing("status"@)
    } else if is_blank(e.output_artifact_ref@) {
        missing("output_artifact_ref"@)
    } else if is_blank(e.output_schema_ref@) {
        missing("output_schema_ref"@)
    } else {
        None
    }
}

/// Validates a subtask result envelope.
pub fn validate_subtask_result_envelope(envelope: &SubtaskResultEnvelope) -> (r: Result<(), DelegationError>)
    ensures
        delegation_reports(r, result_envelope_check(envelope)),
{
    if str_is_blank(envelope.subtask_id.as_str()) {
        return empty_field("subtask_id");
    }
    if str_is_blank(envelope.correlation_id.as_str()) {
        return empty_field("correlation_id");
    }
    if str_is_blank(envelope.source_agent_id.as_str()) {
        return empty_field("source_agent_id");
    }
    if str_is_blank(envelope.target_agent_id.as_str()) {
        return empty_field("target_agent_id");
    }
    if str_is_blank(envelope.tool_id.as_str()) {
        return empty_field("tool_id");
    }
    if str_is_blank(envelope.status.as_str()) {
        return empty_field("status");
    }
    if str_is_blank(envelope.output_artifact_ref.as_str()) {
        return empty_field("output_artifact_ref");
    }
    if str_is_blank(envelope.output_schema_ref.as_str()) {
        return empty_field("output_schema_ref");
    }
    Ok(())
}

// ---------------------------------------------------------------------------
// Deterministic provider steps
// ---------------------------------------------------------------------------

/// A decision that delegates must name a target agent.
pub open spec fn chosen_decision_check(d: &DelegationDecision) -> Option<Seq<char>> {
    if d.mode != DelegationMode::NoDelegation && d.target_agents@.len() == 0 {
        Some("delegation decision selects a mode but names no target agents"@)
    } else {
        None
    }
}

/// Checks a decision proposed by a delegation backend.
pub fn check_chosen_decision(decision: &DelegationDecision) -> (r: Result<(), DelegationError>)
    ensures
        delegation_reports(r, chosen_decision_check(decision)),
{
    let delegates = match decision.mode {
        DelegationMode::NoDelegation => false,
        _ => true,
    };
    if delegates && decision.target_agents.len() == 0 {
        return delegation_error("delegation decision selects a mode but names no target agents");
    }
    Ok(())
}

/// The handle of a started subtask: its id and target agent.
pub fn start_subtask(req: StartSubtaskRequest) -> (r: Result<DelegationHandle, DelegationError>)
    ensures
        r matches Ok(h) && h.subtask_id@ == req.envelope.subtask_id@ && h.target_agent@ == req.envelope.target_agent@,
{
    Ok(DelegationHandle { subtask_id: req.envelope.subtask_id, target_agent: req.envelope.target_agent })
}

/// The code of a character with ASCII upper case mapped to lower case.
pub open spec fn lower_code(c: char) -> u32 {
    if 65 <= (c as u32) && (c as u32) <= 90 {
        ((c as u32) + 32) as u32
    } else {
        c as u32
    }
}

/// Equality ignoring ASCII case (`str::eq_ignore_ascii_case`).
pub open spec fn eq_ignore_ascii(a: Seq<char>, b: Seq<char>) -> bool {
    a.len() == b.len() && forall|i: int| 0 <= i < a.len() ==> lower_code(#[trigger] a[i]) == lower_code(b[i])
}

fn char_lower_code(c: char) -> (r: u32)
    ensures
        r == lower_code(c),
{
    let v = c as u32;
    if 65 <= v && v <= 90 {
        v + 32
    } else {
        v
    }
}

/// `a.eq_ignore_ascii_case(b)`.
pub fn str_eq_ignore_ascii_case(a: &str, b: &str) -> (r: bool)
    ensures
        r == eq_ignore_ascii(a@, b@),
{
    let n = a.unicode_len();
    let m = b.unicode_len();
    if n != m {
        return false;
    }
    let mut i: usize = 0;
    while i < n
        invariant
            n == a@.len(),
            m == b@.len(),
            n == m,
            i <= n,
            forall|k: int| 0 <= k < i ==> lower_code(#[trigger] a@[k]) == lower_code(b@[k]),
        decreases n - i,
    {
        if char_lower_code(a.get_char(i)) != char_lower_code(b.get_char(i)) {
            return false;
        }
        i = i + 1;
    }
    true
}

/// A subtask status that counts as success.
pub open spec fn success_status(status: Seq<char>) -> bool {
    let t = trimmed(status);
    eq_ignore_ascii(t, "success"@) || eq_ignore_ascii(t, "succeeded"@) || eq_ignore_ascii(t, "completed"@)
}

/// Whether a subtask status means success (case-insensitive).
pub fn is_success_status(status: &str) -> (r: bool)
    ensures
        r == success_status(status@),
{
    let t = str_trim(status);
    str_eq_ignore_ascii_case(t.as_str(), "success") || str_eq_ignore_ascii_case(t.as_str(), "succeeded")
        || str_eq_ignore_ascii_case(t.as_str(), "completed")
}

/// A result that names an output artifact.
pub open spec fn has_output(r: &SubtaskResultEnvelope) -> bool {
    !is_blank(r.output_artifact_ref@)
}

/// A result that wins under first-success merging.
pub open spec fn winning(r: &SubtaskResultEnvelope) -> bool {
    success_status(r.status@) && has_output(r)
}

/// Index of the first winning result from `i` on, or `-1`.
pub open spec fn first_winner(rs: Seq<SubtaskResultEnvelope>, i: int) -> int
    decreases rs.len() - i,
{
    if i < 0 || i >= rs.len() {
        -1
    } else if winning(&rs[i]) {
        i
    } else {
        first_winner(rs, i + 1)
    }
}

/// The output references of the results that name one, in order.
pub open spec fn output_refs(rs: Seq<SubtaskResultEnvelope>) -> Seq<Seq<char>>
    decreases rs.len(),
{
    if rs.len() == 0 {
        Seq::empty()
    } else if has_output(&rs.last()) {
        output_refs(rs.drop_last()).push(rs.last().output_artifact_ref@)
    } else {
        output_refs(rs.drop_last())
    }
}

pub open spec fn policy_text(p: MergePolicy) -> Seq<char> {
    match p {
        MergePolicy::FirstSuccess => "FirstSuccess"@,
        MergePolicy::CollectAll => "CollectAll"@,
        MergePolicy::MajorityVote => "MajorityVote"@,
        MergePolicy::WeightedMerge => "WeightedMerge"@,
        MergePolicy::ReducerArtifact => "ReducerArtifact"@,
    }
}

fn policy_name(p: MergePolicy) -> (r: &'static str)
    ensures
        r@ == policy_text(p),
{
    match p {
        MergePolicy::FirstSuccess => "FirstSuccess",
        MergePolicy::CollectAll => "CollectAll",
        MergePolicy::MajorityVote => "MajorityVote",
        MergePolicy::WeightedMerge => "WeightedMerge",
        MergePolicy::ReducerArtifact => "ReducerArtifact",
    }
}

/// What merging gives: under first-success, the first successful result
/// with an output; under any other policy, every output reference.
pub open spec fn merge_outcome(policy: MergePolicy, rs: Seq<SubtaskResultEnvelope>) -> (Seq<Seq<char>>, Seq<char>) {
    if policy == MergePolicy::FirstSuccess {
        let k = first_winner(rs, 0);
        if k < 0 {
            (Seq::empty(), "no successful subtask result"@)
        } else {
            (seq![rs[k].output_artifact_ref@], "first successful subtask: "@ + rs[k].subtask_id@)
        }
    } else {
        let refs = output_refs(rs);
        (refs, "merged "@ + decimal(refs.len()) + " subtask result(s) under "@ + policy_text(policy))
    }
}

/// Merges subtask results according to the request's policy.
pub fn merge_result(req: MergeSubtaskResultRequest) -> (r: Result<DelegationMergeResult, DelegationError>)
    ensures
        r matches Ok(m) && (strings_view(m.accepted_artifact_refs@), m.summary@) == merge_outcome(
            req.merge_policy,
            req.results@,
        ),
{
    let rs = &req.results;
    match req.merge_policy {
        MergePolicy::FirstSuccess => {
            let mut i: usize = 0;
            while i < rs.len()
                invariant
                    i <= rs.len(),
                    rs@ == req.results@,
                    req.merge_policy == MergePolicy::FirstSuccess,
                    first_winner(rs@, 0) == first_winner(rs@, i as int),
                decreases rs.len() - i,
            {
                if is_success_status(rs[i].status.as_str()) && !str_is_blank(rs[i].output_artifact_ref.as_str()) {
                    let mut refs: Vec<String> = Vec::new();
                    refs.push(rs[i].output_artifact_ref.clone());
                    let mut summary = String::from_str("first successful subtask: ");
                    summary.append(rs[i].subtask_id.as_str());
                    assert(strings_view(refs@) =~= seq![rs@[i as int].output_artifact_ref@]);
                    return Ok(DelegationMergeResult { accepted_artifact_refs: refs, summary });
                }
                i = i + 1;
            }
            let refs: Vec<String> = Vec::new();
            assert(strings_view(refs@) =~= Seq::<Seq<char>>::empty());
            Ok(DelegationMergeResult { accepted_artifact_refs: refs, summary: String::from_str("no successful subtask result") })
        },
        other => {
            let mut refs: Vec<String> = Vec::new();
            let mut i: usize = 0;
            proof {
                assert(rs@.take(0) =~= Seq::<SubtaskResultEnvelope>::empty());
            }
            while i < rs.len()
                invariant
                    i <= rs.len(),
                    rs@ == req.results@,
                    req.merge_policy == other,
                    other != MergePolicy::FirstSuccess,
                    refs.len() <= i,
                    strings_view(refs@) == output_refs(rs@.take(i as int)),
                decreases rs.len() - i,
            {
                proof {
                    assert(rs@.take(i + 1).drop_last() =~= rs@.take(i as int));
                    assert(rs@.take(i + 1).last() == rs@[i as int]);
                }
                let ghost before = refs@;
                if !str_is_blank(rs[i].output_artifact_ref.as_str()) {
                    refs.push(rs[i].output_artifact_ref.clone());
                    assert(strings_view(refs@) =~= strings_view(before).push(rs@[i as int].output_artifact_ref@));
                }
                i = i + 1;
            }
            proof {
                assert(rs@.take(i as int) =~= rs@);
            }
            let count = u64_to_decimal(refs.len() as u64);
            let mut summary = String::from_str("merged ");
            summary.append(count.as_str());
            summary.append(" subtask result(s) under ");
            summary.append(policy_name(other));
            Ok(DelegationMergeResult { accepted_artifact_refs: refs, summary })
        },
    }
}

// ---------------------------------------------------------------------------
// Fixtures
// ---------------------------------------------------------------------------

/// A valid single-agent delegation decision.
pub fn delegation_decision_fixture() -> (r: DelegationDecision)
    ensures
        r.mode == DelegationMode::Single,
        strings_view(r.target_agents@) == seq!["researcher"@],
        r.merge_policy == MergePolicy::FirstSuccess,
        r.rationale@ == "specialist has the right context"@,
{
    let mut target_agents: Vec<String> = Vec::new();
    target_agents.push(String::from_str("researcher"));
    assert(strings_view(target_agents@) =~= seq!["researcher"@]);
    DelegationDecision {
        mode: DelegationMode::Single,
        target_agents,
        merge_policy: MergePolicy::FirstSuccess,
        rationale: String::from_str("specialist has the right context"),
    }
}

/// A valid subtask envelope for a research handoff.
pub fn subtask_envelope_fixture() -> (r: SubtaskEnvelope)
    ensures
        r.subtask_id@ == "subtask-1"@,
        r.parent_run_id@ == "run-1"@,
        r.correlation_id@ == "corr-1"@,
        r.source_agent_id@ == "coordinator"@,
        r.target_agent@ == "researcher"@,
        r.tool_id@ == "research_evidence"@,
        r.goal@ == "collect evidence"@,
        r.context_package_ref@ == "artifact://context-1"@,
        r.context_scope == HandoffContextScope::ParentTaskOnly,
        r.expected_output_schema@ == "schema://evidence"@,
        r.permissions_profile@ == "restricted"@,
        r.deadline@ == "2026-04-15T01:00:00Z"@,
        r.return_policy == HandoffReturnPolicy::Sync,
{
    SubtaskEnvelope {
        subtask_id: String::from_str("subtask-1"),
        parent_run_id: String::from_str("run-1"),
        correlation_id: String::from_str("corr-1"),
        source_agent_id: String::from_str("coordinator"),
        target_agent: String::from_str("researcher"),
        tool_id: String::from_str("research_evidence"),
        goal: String::from_str("collect evidence"),
        context_package_ref: String::from_str("artifact://context-1"),
        context_scope: HandoffContextScope::ParentTaskOnly,
        expected_output_schema: String::from_str("schema://evidence"),
        permissions_profile: String::from_str("restricted"),
        deadline: String::from_str("2026-04-15T01:00:00Z"),
        return_policy: HandoffReturnPolicy::Sync,
    }
}

/// A valid completed subtask result.
pub fn subtask_result_envelope_fixture() -> (r: SubtaskResultEnvelope)
    ensures
        r.subtask_id@ == "subtask-1"@,
        r.correlation_id@ == "corr-1"@,
        r.source_agent_id@ == "researcher"@,
        r.target_agent_id@ == "coordinator"@,
        r.tool_id@ == "research_evidence"@,
        r.status@ == "completed"@,
        r.output_artifact_ref@ == "artifact://evidence-1"@,
        r.output_schema_ref@ == "schema://evidence"@,
        strings_view(r.notes@) == seq!["evidence collected"@],
{
    let mut notes: Vec<String> = Vec::new();
    notes.push(String::from_str("evidence collected"));
    assert(strings_view(notes@) =~= seq!["evidence collected"@]);
    SubtaskResultEnvelope {
        subtask_id: String::from_str("subtask-1"),
        correlation_id: String::from_str("corr-1"),
        source_agent_id: String::from_str("researcher"),
        target_agent_id: String::from_str("coordinator"),
        tool_id: String::from_str("research_evidence"),
        status: String::from_str("completed"),
        output_artifact_ref: String::from_str("artifact://evidence-1"),
        output_schema_ref: String::from_str("schema://evidence"),
        notes,
    }
}

} // verus!
