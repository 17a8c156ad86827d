use greentic_dw::planning::{
    basic_plan_fixture, evaluate_completion, is_terminal, record_step_result, satisfies_dependency,
    validate_plan, validate_step_transition, CompletionCheckRequest, CompletionState, PlanDocument, PlanEdge,
    PlanStatus, PlanStep, PlanStepKind, PlanStepStatus, PlanningError, StepResultRequest,
};

#[test]
fn validates_basic_fixture() {
    validate_plan(&basic_plan_fixture()).expect("fixture should validate");
}

#[test]
fn rejects_duplicate_step_ids() {
    let mut plan = basic_plan_fixture();
    plan.steps[1].step_id = "research".to_string();
    let err = validate_plan(&plan).expect_err("duplicate step ids should fail");
    assert_eq!(err, PlanningError::Validation("duplicate step_id `research`".to_string()));
}

#[test]
fn rejects_empty_plan_id() {
    let mut plan = basic_plan_fixture();
    plan.plan_id = "   ".to_string();
    let err = validate_plan(&plan).expect_err("empty plan_id should fail");
    assert_eq!(err, PlanningError::Validation("plan_id must not be empty".to_string()));
}

#[test]
fn rejects_empty_goal() {
    let mut plan = basic_plan_fixture();
    plan.goal = "".to_string();
    let err = validate_plan(&plan).expect_err("empty goal should fail");
    assert_eq!(err, PlanningError::Validation("goal must not be empty".to_string()));
}

#[test]
fn rejects_empty_success_criteria() {
    let mut plan = basic_plan_fixture();
    plan.success_criteria.clear();
    let err = validate_plan(&plan).expect_err("empty success_criteria should fail");
    assert_eq!(err, PlanningError::Validation("success_criteria must not be empty".to_string()));
}

#[test]
fn rejects_empty_step_id() {
    let mut plan = basic_plan_fixture();
    plan.steps[0].step_id = " ".to_string();
    let err = validate_plan(&plan).expect_err("empty step_id should fail");
    assert_eq!(err, PlanningError::Validation("step_id must not be empty".to_string()));
}

#[test]
fn rejects_empty_step_title() {
    let mut plan = basic_plan_fixture();
    plan.steps[0].title = "".to_string();
    let err = validate_plan(&plan).expect_err("empty title should fail");
    assert_eq!(err, PlanningError::Validation("step `research` title must not be empty".to_string()));
}

#[test]
fn rejects_empty_dependency() {
    let mut plan = basic_plan_fixture();
    plan.steps[1].depends_on = vec!["".to_string()];
    let err = validate_plan(&plan).expect_err("empty dependency should fail");
    assert_eq!(err, PlanningError::Validation("step `review` has an empty dependency".to_string()));
}

#[test]
fn rejects_unknown_dependency() {
    let mut plan = basic_plan_fixture();
    plan.steps[1].depends_on = vec!["missing".to_string()];
    let err = validate_plan(&plan).expect_err("unknown dependency should fail");
    assert_eq!(err, PlanningError::Validation("step `review` depends on unknown step `missing`".to_string()));
}

#[test]
fn rejects_self_dependency() {
    let mut plan = basic_plan_fixture();
    plan.steps[1].depends_on = vec!["review".to_string()];
    let err = validate_plan(&plan).expect_err("self-dependency should fail");
    assert_eq!(err, PlanningError::Validation("step `review` cannot depend on itself".to_string()));
}

#[test]
fn rejects_edge_with_unknown_from_step() {
    let mut plan = basic_plan_fixture();
    plan.edges = vec![PlanEdge { from_step_id: "ghost".to_string(), to_step_id: "review".to_string(), condition: None }];
    let err = validate_plan(&plan).expect_err("edge with unknown from should fail");
    assert_eq!(err, PlanningError::Validation("edge references unknown from_step_id `ghost`".to_string()));
}

#[test]
fn rejects_edge_with_unknown_to_step() {
    let mut plan = basic_plan_fixture();
    plan.edges = vec![PlanEdge { from_step_id: "research".to_string(), to_step_id: "ghost".to_string(), condition: None }];
    let err = validate_plan(&plan).expect_err("edge with unknown to should fail");
    assert_eq!(err, PlanningError::Validation("edge references unknown to_step_id `ghost`".to_string()));
}

#[test]
fn rejects_self_edge() {
    let mut plan = basic_plan_fixture();
    plan.edges = vec![PlanEdge { from_step_id: "research".to_string(), to_step_id: "research".to_string(), condition: None }];
    let err = validate_plan(&plan).expect_err("self-edge should fail");
    assert_eq!(err, PlanningError::Validation("edge cannot connect a step to itself".to_string()));
}

#[test]
fn validates_step_transition_rules() {
    validate_step_transition(&PlanStepStatus::Ready, &PlanStepStatus::Running).expect("ready -> running should pass");
    let err = validate_step_transition(&PlanStepStatus::Completed, &PlanStepStatus::Running)
        .expect_err("completed -> running should fail");
    assert!(matches!(err, PlanningError::Validation(_)));
}

#[test]
fn accepts_all_documented_step_transitions() {
    let allowed = [
        (PlanStepStatus::Pending, PlanStepStatus::Ready),
        (PlanStepStatus::Ready, PlanStepStatus::Running),
        (PlanStepStatus::Running, PlanStepStatus::Completed),
        (PlanStepStatus::Running, PlanStepStatus::Failed),
        (PlanStepStatus::Running, PlanStepStatus::Blocked),
        (PlanStepStatus::Blocked, PlanStepStatus::Ready),
        (PlanStepStatus::Pending, PlanStepStatus::Skipped),
        (PlanStepStatus::Ready, PlanStepStatus::Skipped),
        (PlanStepStatus::Running, PlanStepStatus::Running),
        (PlanStepStatus::Completed, PlanStepStatus::Completed),
        (PlanStepStatus::Failed, PlanStepStatus::Failed),
        (PlanStepStatus::Skipped, PlanStepStatus::Skipped),
    ];
    for (prev, next) in allowed {
        validate_step_transition(&prev, &next)
            .unwrap_or_else(|err| panic!("{prev:?} -> {next:?} should pass: {err:?}"));
    }
}

#[test]
fn rejects_illegal_step_transitions() {
    let illegal = [
        (PlanStepStatus::Pending, PlanStepStatus::Running),
        (PlanStepStatus::Skipped, PlanStepStatus::Running),
        (PlanStepStatus::Failed, PlanStepStatus::Completed),
    ];
    for (prev, next) in illegal {
        let err = validate_step_transition(&prev, &next).expect_err(&format!("{prev:?} -> {next:?} should be rejected"));
        assert!(matches!(err, PlanningError::Validation(_)));
    }
}

#[test]
fn illegal_transition_message_names_both_statuses() {
    let err = validate_step_transition(&PlanStepStatus::Completed, &PlanStepStatus::Running).unwrap_err();
    assert_eq!(
        err,
        PlanningError::Validation("illegal plan step transition from `Completed` to `Running`".to_string())
    );
}

#[test]
fn terminal_and_satisfying_statuses() {
    assert!(is_terminal(&PlanStepStatus::Completed));
    assert!(is_terminal(&PlanStepStatus::Skipped));
    assert!(is_terminal(&PlanStepStatus::Failed));
    assert!(!is_terminal(&PlanStepStatus::Running));
    assert!(satisfies_dependency(&PlanStepStatus::Completed));
    assert!(satisfies_dependency(&PlanStepStatus::Skipped));
    assert!(!satisfies_dependency(&PlanStepStatus::Failed));
}

fn step(step_id: &str, status: PlanStepStatus, depends_on: Vec<&str>) -> PlanStep {
    PlanStep {
        step_id: step_id.to_string(),
        title: format!("Step {step_id}"),
        kind: PlanStepKind::ToolCall,
        status,
        depends_on: depends_on.into_iter().map(str::to_string).collect(),
        assigned_agent: None,
        inputs_schema_ref: None,
        output_schema_ref: None,
        retry_count: 0,
    }
}

fn minimal_plan(steps: Vec<PlanStep>) -> PlanDocument {
    PlanDocument {
        plan_id: "plan-1".to_string(),
        goal: "test goal".to_string(),
        status: PlanStatus::Active,
        revision: 1,
        assumptions: vec![],
        constraints: vec![],
        success_criteria: vec!["done".to_string()],
        steps,
        edges: vec![],
        metadata: Vec::new(),
    }
}

#[test]
fn record_step_result_updates_target_status() {
    let plan = minimal_plan(vec![step("s1", PlanStepStatus::Running, vec![]), step("s2", PlanStepStatus::Pending, vec![])]);
    let req = StepResultRequest { plan, step_id: "s1".to_string(), status: PlanStepStatus::Completed };
    let updated = record_step_result(req).expect("should succeed");
    let s1 = updated.steps.iter().find(|s| s.step_id == "s1").unwrap();
    assert_eq!(s1.status, PlanStepStatus::Completed);
}

#[test]
fn record_step_result_promotes_dependent_to_ready() {
    let plan = minimal_plan(vec![step("s1", PlanStepStatus::Running, vec![]), step("s2", PlanStepStatus::Pending, vec!["s1"])]);
    let req = StepResultRequest { plan, step_id: "s1".to_string(), status: PlanStepStatus::Completed };
    let updated = record_step_result(req).expect("should succeed");
    let s2 = updated.steps.iter().find(|s| s.step_id == "s2").unwrap();
    assert_eq!(s2.status, PlanStepStatus::Ready, "s2 must be promoted to Ready after s1 completes");
}

#[test]
fn record_step_result_does_not_promote_when_dependency_unmet() {
    let plan = minimal_plan(vec![
        step("s1", PlanStepStatus::Running, vec![]),
        step("s2", PlanStepStatus::Pending, vec![]),
        step("s3", PlanStepStatus::Pending, vec!["s1", "s2"]),
    ]);
    let req = StepResultRequest { plan, step_id: "s1".to_string(), status: PlanStepStatus::Completed };
    let updated = record_step_result(req).expect("should succeed");
    let s3 = updated.steps.iter().find(|s| s.step_id == "s3").unwrap();
    assert_eq!(s3.status, PlanStepStatus::Pending);
}

#[test]
fn record_step_result_promotes_with_skipped_dependency() {
    let plan = minimal_plan(vec![step("s1", PlanStepStatus::Running, vec![]), step("s2", PlanStepStatus::Pending, vec!["s1"])]);
    let req = StepResultRequest { plan, step_id: "s1".to_string(), status: PlanStepStatus::Skipped };
    let updated = record_step_result(req).expect("should succeed");
    let s2 = updated.steps.iter().find(|s| s.step_id == "s2").unwrap();
    assert_eq!(s2.status, PlanStepStatus::Ready);
}

#[test]
fn record_step_result_with_unknown_step_only_promotes() {
    let plan = minimal_plan(vec![step("s1", PlanStepStatus::Pending, vec![])]);
    let req = StepResultRequest { plan, step_id: "ghost".to_string(), status: PlanStepStatus::Failed };
    let updated = record_step_result(req).expect("should succeed");
    assert_eq!(updated.steps[0].status, PlanStepStatus::Ready);
}

fn completion(steps: Vec<PlanStep>) -> CompletionState {
    evaluate_completion(&CompletionCheckRequest { plan: minimal_plan(steps) }).expect("ok")
}

#[test]
fn evaluate_completion_satisfied_when_all_terminal() {
    let state = completion(vec![step("s1", PlanStepStatus::Completed, vec![]), step("s2", PlanStepStatus::Skipped, vec![])]);
    assert_eq!(state, CompletionState::Satisfied);
}

#[test]
fn evaluate_completion_incomplete_when_steps_still_running() {
    let state = completion(vec![step("s1", PlanStepStatus::Completed, vec![]), step("s2", PlanStepStatus::Running, vec![])]);
    assert_eq!(state, CompletionState::Incomplete);
}

#[test]
fn evaluate_completion_unsatisfied_when_any_step_failed() {
    let state = completion(vec![step("s1", PlanStepStatus::Completed, vec![]), step("s2", PlanStepStatus::Failed, vec![])]);
    assert_eq!(state, CompletionState::Unsatisfied);
}

#[test]
fn evaluate_completion_unsatisfied_takes_precedence_over_incomplete() {
    let state = completion(vec![step("s1", PlanStepStatus::Failed, vec![]), step("s2", PlanStepStatus::Running, vec![])]);
    assert_eq!(state, CompletionState::Unsatisfied);
}

#[test]
fn evaluate_completion_satisfied_with_empty_steps() {
    assert_eq!(completion(vec![]), CompletionState::Satisfied);
}

#[test]
fn record_step_result_does_not_mutate_original_plan() {
    let plan = minimal_plan(vec![step("s1", PlanStepStatus::Running, vec![])]);
    let original_status = plan.steps[0].status;
    let req = StepResultRequest {
        plan: minimal_plan(vec![step("s1", PlanStepStatus::Running, vec![])]),
        step_id: "s1".to_string(),
        status: PlanStepStatus::Completed,
    };
    let updated = record_step_result(req).expect("should succeed");
    assert_eq!(plan.steps[0].status, original_status);
    assert_eq!(updated.steps[0].status, PlanStepStatus::Completed);
}

#[test]
fn recording_results_keeps_validation_verdicts() {
    let valid = basic_plan_fixture();
    let recorded = record_step_result(StepResultRequest {
        plan: valid,
        step_id: "research".to_string(),
        status: PlanStepStatus::Failed,
    })
    .expect("record");
    assert_eq!(recorded.steps[0].status, PlanStepStatus::Failed);
    validate_plan(&recorded).expect("still valid");

    let mut broken = basic_plan_fixture();
    broken.steps[1].depends_on = vec!["missing".to_string()];
    let before = validate_plan(&broken).expect_err("unknown dependency");
    let recorded = record_step_result(StepResultRequest {
        plan: broken,
        step_id: "research".to_string(),
        status: PlanStepStatus::Completed,
    })
    .expect("record");
    assert_eq!(validate_plan(&recorded).expect_err("still invalid"), before);
}
