use greentic_dw::delegation::{
    check_chosen_decision, delegation_decision_fixture, is_success_status, merge_result, start_subtask,
    subtask_envelope_fixture, subtask_result_envelope_fixture, validate_decision, validate_subtask_envelope,
    validate_subtask_result_envelope, DelegationDecision, DelegationError, DelegationMode, HandoffContextScope,
    HandoffReturnPolicy, MergePolicy, MergeSubtaskResultRequest, StartSubtaskRequest, SubtaskEnvelope,
    SubtaskResultEnvelope,
};

#[test]
fn validates_decision_fixture() {
    validate_decision(&delegation_decision_fixture()).expect("fixture should validate");
}

#[test]
fn validates_subtask_envelope_fixture() {
    validate_subtask_envelope(&subtask_envelope_fixture()).expect("fixture should validate");
}

#[test]
fn validates_subtask_result_envelope_fixture() {
    validate_subtask_result_envelope(&subtask_result_envelope_fixture()).expect("result fixture should validate");
}

#[test]
fn rejects_missing_tool_id_for_worker_handoff() {
    let mut envelope = subtask_envelope_fixture();
    envelope.tool_id.clear();
    let err = validate_subtask_envelope(&envelope).expect_err("missing tool id should fail");
    assert_eq!(err, DelegationError::Validation("tool_id must not be empty".to_string()));
}

#[test]
fn rejects_missing_targets_for_active_mode() {
    let decision = DelegationDecision {
        mode: DelegationMode::Parallel,
        target_agents: vec![],
        merge_policy: MergePolicy::CollectAll,
        rationale: "fan out".to_string(),
    };
    let err = validate_decision(&decision).expect_err("missing targets should fail");
    assert_eq!(err, DelegationError::Validation("delegation target_agents must not be empty".to_string()));
}

#[test]
fn rejects_targets_when_not_delegating() {
    let decision = DelegationDecision {
        mode: DelegationMode::NoDelegation,
        target_agents: vec!["helper".to_string()],
        merge_policy: MergePolicy::CollectAll,
        rationale: "keep it".to_string(),
    };
    assert_eq!(
        validate_decision(&decision).unwrap_err(),
        DelegationError::Validation("delegation mode `none` cannot include target agents".to_string())
    );
}

#[test]
fn result_envelope_reports_first_blank_field() {
    let mut envelope = subtask_result_envelope_fixture();
    envelope.status = " ".to_string();
    envelope.output_schema_ref = String::new();
    assert_eq!(
        validate_subtask_result_envelope(&envelope).unwrap_err(),
        DelegationError::Validation("status must not be empty".to_string())
    );
}

#[test]
fn choose_delegate_mode_with_empty_agents_is_validation_error() {
    let decision = DelegationDecision {
        mode: DelegationMode::Single,
        target_agents: vec![],
        merge_policy: MergePolicy::FirstSuccess,
        rationale: "oops".to_string(),
    };
    assert_eq!(
        check_chosen_decision(&decision).unwrap_err(),
        DelegationError::Validation("delegation decision selects a mode but names no target agents".to_string())
    );
}

#[test]
fn choose_delegate_none_mode_with_empty_agents_is_ok() {
    let decision = DelegationDecision {
        mode: DelegationMode::NoDelegation,
        target_agents: vec![],
        merge_policy: MergePolicy::FirstSuccess,
        rationale: "no need".to_string(),
    };
    assert!(check_chosen_decision(&decision).is_ok());
}

fn subtask_envelope() -> SubtaskEnvelope {
    SubtaskEnvelope {
        subtask_id: "sub-001".into(),
        parent_run_id: "run-42".into(),
        correlation_id: String::new(),
        source_agent_id: String::new(),
        target_agent: "summarizer".into(),
        tool_id: String::new(),
        goal: "Summarize section 3".into(),
        context_package_ref: "ctx://run-42/context".into(),
        context_scope: HandoffContextScope::default(),
        expected_output_schema: "{}".into(),
        permissions_profile: "read-only".into(),
        deadline: "2026-12-31T00:00:00Z".into(),
        return_policy: HandoffReturnPolicy::default(),
    }
}

fn result_envelope(subtask_id: &str, status: &str, artifact: &str) -> SubtaskResultEnvelope {
    SubtaskResultEnvelope {
        subtask_id: subtask_id.into(),
        correlation_id: String::new(),
        source_agent_id: String::new(),
        target_agent_id: String::new(),
        tool_id: String::new(),
        status: status.into(),
        output_artifact_ref: artifact.into(),
        output_schema_ref: String::new(),
        notes: vec![],
    }
}

#[test]
fn start_subtask_echoes_envelope_ids() {
    let handle = start_subtask(StartSubtaskRequest { envelope: subtask_envelope() }).expect("should succeed");
    assert_eq!(handle.subtask_id, "sub-001");
    assert_eq!(handle.target_agent, "summarizer");
}

#[test]
fn merge_result_first_success_picks_first_success() {
    let req = MergeSubtaskResultRequest {
        merge_policy: MergePolicy::FirstSuccess,
        results: vec![
            result_envelope("sub-001", "failed", "artifact://sub-001/out"),
            result_envelope("sub-002", "success", "artifact://sub-002/out"),
        ],
    };
    let merged = merge_result(req).expect("should succeed");
    assert_eq!(merged.accepted_artifact_refs, vec!["artifact://sub-002/out"]);
    assert_eq!(merged.summary, "first successful subtask: sub-002");
}

#[test]
fn merge_result_first_success_skips_failed_only() {
    let req = MergeSubtaskResultRequest {
        merge_policy: MergePolicy::FirstSuccess,
        results: vec![result_envelope("sub-001", "failed", "artifact://sub-001/out")],
    };
    let merged = merge_result(req).expect("should succeed");
    assert!(merged.accepted_artifact_refs.is_empty());
    assert_eq!(merged.summary, "no successful subtask result");
}

#[test]
fn merge_result_first_success_accepts_succeeded_status() {
    let req = MergeSubtaskResultRequest {
        merge_policy: MergePolicy::FirstSuccess,
        results: vec![result_envelope("sub-001", "succeeded", "artifact://sub-001/out")],
    };
    let merged = merge_result(req).expect("should succeed");
    assert_eq!(merged.accepted_artifact_refs, vec!["artifact://sub-001/out"]);
}

#[test]
fn merge_result_first_success_accepts_completed_status() {
    let req = MergeSubtaskResultRequest {
        merge_policy: MergePolicy::FirstSuccess,
        results: vec![result_envelope("sub-001", "COMPLETED", "artifact://sub-001/out")],
    };
    let merged = merge_result(req).expect("should succeed");
    assert_eq!(merged.accepted_artifact_refs, vec!["artifact://sub-001/out"]);
}

#[test]
fn merge_result_collect_all_returns_all_non_empty_refs() {
    let req = MergeSubtaskResultRequest {
        merge_policy: MergePolicy::CollectAll,
        results: vec![
            result_envelope("sub-001", "success", "artifact://sub-001/out"),
            result_envelope("sub-002", "failed", "artifact://sub-002/out"),
            result_envelope("sub-003", "success", ""),
        ],
    };
    let merged = merge_result(req).expect("should succeed");
    assert_eq!(merged.accepted_artifact_refs.len(), 2);
    assert!(merged.accepted_artifact_refs.contains(&"artifact://sub-001/out".to_string()));
    assert!(merged.accepted_artifact_refs.contains(&"artifact://sub-002/out".to_string()));
    assert_eq!(merged.summary, "merged 2 subtask result(s) under CollectAll");
}

#[test]
fn merge_result_empty_results_returns_empty() {
    let req = MergeSubtaskResultRequest { merge_policy: MergePolicy::CollectAll, results: vec![] };
    let merged = merge_result(req).expect("should succeed");
    assert!(merged.accepted_artifact_refs.is_empty());
}

#[test]
fn success_status_ignores_case_and_surrounding_space() {
    assert!(is_success_status(" Success "));
    assert!(is_success_status("SUCCEEDED"));
    assert!(!is_success_status("done"));
}
